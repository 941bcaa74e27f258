//! Requests that only read: which handler takes a request, and what the
//! listing and searching handlers decide.

use vstd::prelude::*;

use crate::config::Config;
use crate::corpus::{
    all_corpora, corpora_fault, corpus_models, is_wiki_corpus, names_wiki, pick_corpus_or_default,
    picked_or_default, CorpusConfig, CorpusModel,
};
use crate::daemon::ipc::{
    failed, is_error, lone_text, no_fields, one_field, pong_value, refused, stopping_value,
    text_fields, CorpusEntry, DaemonRequestPayload, DaemonResponse, ErrorKind, GroundRequest,
    VERSION,
};
use crate::error::HallouminateError;
use crate::text::{copy_list, opt_str_view, opt_view, owned, views};
use crate::tilde::{expand_tilde, expands_to};

verus! {

/// Whether the request is answered whatever the configuration is.
pub open spec fn is_control(payload: DaemonRequestPayload) -> bool {
    payload is Ping || payload is Shutdown
}

/// Whether the request changes a corpus.
pub open spec fn mutates(payload: DaemonRequestPayload) -> bool {
    payload is Index || payload is AddMarkdown || payload is DeleteMarkdown
        || payload is GlobalizeMarkdown
}

/// How a request that is answered whatever the configuration is was answered.
#[derive(Debug)]
pub struct ControlReply {
    pub response: DaemonResponse,
    /// Whether the daemon stops once it has answered.
    pub stop: bool,
}

/// The answer to a request that is answered whatever the configuration is:
/// a ping is answered with the version, and a request to stop with a word of
/// agreement before the daemon stops.  Other requests get none here.
pub fn dispatch_control(payload: &DaemonRequestPayload) -> (out: Option<ControlReply>)
    ensures
        out is Some <==> is_control(*payload),
        *payload is Ping ==> (out matches Some(reply) && !reply.stop && (
        reply.response matches DaemonResponse::Success { result } && text_fields(result)
            == one_field("version"@, VERSION@) && lone_text(result) is None)),
        *payload is Shutdown ==> (out matches Some(reply) && reply.stop && (
        reply.response matches DaemonResponse::Success { result } && text_fields(result)
            == no_fields() && lone_text(result) == Some("stopping"@))),
{
    match payload {
        DaemonRequestPayload::Shutdown => Some(
            ControlReply {
                response: DaemonResponse::Success { result: stopping_value() },
                stop: true,
            },
        ),
        DaemonRequestPayload::Ping => Some(
            ControlReply {
                response: DaemonResponse::Success { result: pong_value(VERSION) },
                stop: false,
            },
        ),
        _ => None,
    }
}

/// Whether the request takes the lock of a corpus and the one lane for writes.
pub fn takes_write_lane(payload: &DaemonRequestPayload) -> (out: bool)
    ensures
        out == mutates(*payload),
{
    match payload {
        DaemonRequestPayload::Index(_) => true,
        DaemonRequestPayload::AddMarkdown(_) => true,
        DaemonRequestPayload::DeleteMarkdown(_) => true,
        DaemonRequestPayload::GlobalizeMarkdown(_) => true,
        _ => false,
    }
}

/// The answer where the configuration for the working directory cannot be had:
/// that is for the caller to mend.
pub fn config_refusal(e: &HallouminateError) -> (out: DaemonResponse)
    ensures
        is_error(out, ErrorKind::InvalidParams, e.shown()),
{
    DaemonResponse::invalid_params(e.message().as_str())
}

/// The corpora that a request can ask for.
pub fn effective_corpora(cfg: &Config) -> (out: Result<Vec<CorpusConfig>, DaemonResponse>)
    ensures
        match corpora_fault(cfg@.corpora, cfg@.repositories) {
            Some(fault) => failed(out, fault),
            None => out matches Ok(list) && corpus_models(list@) == all_corpora(
                cfg@.corpora,
                cfg@.repositories,
            ),
        },
{
    match cfg.effective_corpora() {
        Ok(list) => Ok(list),
        Err(e) => Err(DaemonResponse::internal(e.message().as_str())),
    }
}

/// Whether the entry is the corpus as it is listed.
pub open spec fn is_entry(entry: CorpusEntry, corpus: CorpusModel) -> bool {
    entry.name@ == corpus.name && views(entry.paths@) == corpus.paths
}

/// The corpora, as they are listed.
pub fn handle_list_corpora(cfg: &Config) -> (out: Result<Vec<CorpusEntry>, DaemonResponse>)
    ensures
        match corpora_fault(cfg@.corpora, cfg@.repositories) {
            Some(fault) => failed(out, fault),
            None => {
                let all = all_corpora(cfg@.corpora, cfg@.repositories);
                out matches Ok(entries) && entries@.len() == all.len() && forall|i: int|
                    0 <= i < all.len() ==> is_entry(#[trigger] entries@[i], all[i])
            },
        },
{
    let corpora = match effective_corpora(cfg) {
        Ok(list) => list,
        Err(response) => {
            return Err(response);
        },
    };
    let mut entries: Vec<CorpusEntry> = Vec::new();
    for i in 0..corpora.len()
        invariant
            entries@.len() == i,
            forall|j: int| 0 <= j < i ==> is_entry(#[trigger] entries@[j], corpora@[j]@),
    {
        entries.push(
            CorpusEntry { name: corpora[i].name.clone(), paths: copy_list(&corpora[i].paths) },
        );
    }
    proof {
        let all = all_corpora(cfg@.corpora, cfg@.repositories);
        assert forall|i: int| 0 <= i < all.len() implies is_entry(
            #[trigger] entries@[i],
            all[i],
        ) by {
            assert(corpus_models(corpora@)[i] == corpora@[i]@);
        }
    }
    Ok(entries)
}

/// The corpus that a request to list files means.
pub fn select_for_listing(
    cfg: &Config,
    default_wiki: Option<&str>,
    requested: Option<&str>,
) -> (out: Result<CorpusConfig, DaemonResponse>)
    ensures
        match corpora_fault(cfg@.corpora, cfg@.repositories) {
            Some(fault) => failed(out, fault),
            None => match picked_or_default(
                all_corpora(cfg@.corpora, cfg@.repositories),
                opt_str_view(default_wiki),
                opt_str_view(requested),
            ) {
                Ok(found) => out matches Ok(corpus) && corpus@ == found,
                Err(message) => refused(out, message),
            },
        },
{
    let corpora = match effective_corpora(cfg) {
        Ok(list) => list,
        Err(response) => {
            return Err(response);
        },
    };
    match pick_corpus_or_default(&corpora, default_wiki, requested) {
        Ok(corpus) => Ok(corpus),
        Err(message) => Err(DaemonResponse::invalid_params(message.as_str())),
    }
}

/// The directories that are made before a corpus is walked: those of a wiki,
/// which the daemon looks after, and none of another corpus, so that a
/// misspelt path is noticed.
pub fn ensure_paths_exist(corpus: &CorpusConfig) -> (out: Vec<String>)
    ensures
        !names_wiki(corpus@.name) ==> out@.len() == 0,
        names_wiki(corpus@.name) ==> out@.len() == corpus@.paths.len() && forall|i: int|
            0 <= i < out@.len() ==> expands_to(corpus@.paths[i], #[trigger] out@[i]@),
{
    let mut out: Vec<String> = Vec::new();
    if !is_wiki_corpus(corpus) {
        return out;
    }
    for i in 0..corpus.paths.len()
        invariant
            out@.len() == i,
            forall|j: int| 0 <= j < i ==> expands_to(corpus@.paths[j], #[trigger] out@[j]@),
    {
        proof {
            assert(corpus@.paths[i as int] == corpus.paths@[i as int]@);
        }
        out.push(expand_tilde(corpus.paths[i].as_str()));
    }
    out
}

/// How many results a search returns at most, unless it says otherwise.
pub const DEFAULT_LIMIT: usize = 50;

/// How much a search returns.
#[derive(Debug, Clone, Copy, PartialEq, Eq, Structural)]
pub struct GroundOpts {
    pub top_files: usize,
    pub chunks_per_file: usize,
    pub limit: usize,
}

/// What is searched.
#[derive(Debug)]
pub enum GroundTarget {
    /// One corpus.
    Single(CorpusConfig),
    /// All of them.
    Union(Vec<CorpusConfig>),
}

/// How a search is done.
#[derive(Debug)]
pub struct GroundPlan {
    pub target: GroundTarget,
    pub opts: GroundOpts,
    /// Whether the query is embedded.
    pub use_embedder: bool,
    /// How many characters of each snippet are kept, unless all are.
    pub snippet_chars: Option<usize>,
}

/// The value, or the one to use in its absence.
pub open spec fn value_or(value: Option<usize>, default: usize) -> usize {
    match value {
        Some(v) => v,
        None => default,
    }
}

/// Whether a search goes to all corpora: none is named, and the working
/// directory lies in no repository.
pub open spec fn searches_all(
    requested: Option<Seq<char>>,
    default_wiki: Option<Seq<char>>,
) -> bool {
    requested is None && default_wiki is None
}

/// Whether the plan searches as the request says.
pub open spec fn is_ground_plan(
    plan: GroundPlan,
    cfg: crate::config::ConfigModel,
    default_wiki: Option<Seq<char>>,
    req: GroundRequest,
    embeddings_enabled: bool,
) -> bool {
    let all = all_corpora(cfg.corpora, cfg.repositories);
    &&& plan.opts == GroundOpts {
        top_files: value_or(req.top_files, cfg.search.top_files_default),
        chunks_per_file: value_or(req.chunks_per_file, cfg.search.chunks_per_file_default),
        limit: value_or(req.limit, DEFAULT_LIMIT),
    }
    &&& plan.use_embedder == embeddings_enabled
    &&& plan.snippet_chars == req.snippet_chars
    &&& if searches_all(opt_view(req.corpus), default_wiki) {
        plan.target matches GroundTarget::Union(list) && corpus_models(list@) == all
    } else {
        plan.target matches GroundTarget::Single(corpus) && picked_or_default(
            all,
            default_wiki,
            opt_view(req.corpus),
        ) == Ok::<CorpusModel, Seq<char>>(corpus@)
    }
}

fn number_or(value: Option<usize>, default: usize) -> (out: usize)
    ensures
        out == value_or(value, default),
{
    match value {
        Some(v) => v,
        None => default,
    }
}

/// How a search is done.  Without a named corpus it goes to the wiki of the
/// repository around the working directory and, above all repositories, to all
/// corpora at once.
pub fn plan_ground(
    cfg: &Config,
    default_wiki: Option<&str>,
    req: &GroundRequest,
    embeddings_enabled: bool,
) -> (out: Result<GroundPlan, DaemonResponse>)
    ensures
        match corpora_fault(cfg@.corpora, cfg@.repositories) {
            Some(fault) => failed(out, fault),
            None => if searches_all(opt_view(req.corpus), opt_str_view(default_wiki)) {
                out is Ok
            } else {
                match picked_or_default(
                    all_corpora(cfg@.corpora, cfg@.repositories),
                    opt_str_view(default_wiki),
                    opt_view(req.corpus),
                ) {
                    Ok(found) => out is Ok,
                    Err(message) => refused(out, message),
                }
            },
        },
        out matches Ok(plan) ==> is_ground_plan(
            plan,
            cfg@,
            opt_str_view(default_wiki),
            *req,
            embeddings_enabled,
        ),
{
    let corpora = match effective_corpora(cfg) {
        Ok(list) => list,
        Err(response) => {
            return Err(response);
        },
    };
    let opts = GroundOpts {
        top_files: number_or(req.top_files, cfg.search.top_files_default),
        chunks_per_file: number_or(req.chunks_per_file, cfg.search.chunks_per_file_default),
        limit: number_or(req.limit, DEFAULT_LIMIT),
    };
    let union = req.corpus.is_none() && default_wiki.is_none();
    let target = if union {
        GroundTarget::Union(corpora)
    } else {
        let requested: Option<&str> = match &req.corpus {
            Some(name) => Some(name.as_str()),
            None => None,
        };
        match pick_corpus_or_default(&corpora, default_wiki, requested) {
            Ok(corpus) => GroundTarget::Single(corpus),
            Err(message) => {
                return Err(DaemonResponse::invalid_params(message.as_str()));
            },
        }
    };
    Ok(
        GroundPlan {
            target,
            opts,
            use_embedder: embeddings_enabled,
            snippet_chars: req.snippet_chars,
        },
    )
}

/// What a search does next.
#[derive(Debug, Clone, Copy, PartialEq, Eq, Structural)]
pub enum GroundStep {
    /// Get the embedder.
    Embedder,
    /// Get the reranker.
    Crossencoder { embedder: bool },
    /// Search, with what there is.
    Search { embedder: bool, crossencoder: bool },
    /// Answer with what was found.
    Render,
}

/// What came of a step of a search.
#[derive(Debug)]
pub enum GroundEvent {
    /// The embedder is there, or why not.
    Embedder(Result<(), String>),
    /// Whether a reranker is there: none may be configured, and one that cannot
    /// be had is done without.
    Crossencoder(bool),
    /// The search succeeded, or why not.
    Searched(Result<(), String>),
}

/// The first step of a search.
pub fn ground_start(plan: &GroundPlan) -> (out: GroundStep)
    ensures
        out == if plan.use_embedder {
            GroundStep::Embedder
        } else {
            GroundStep::Crossencoder { embedder: false }
        },
{
    if plan.use_embedder {
        GroundStep::Embedder
    } else {
        GroundStep::Crossencoder { embedder: false }
    }
}

/// Whether `out` is what follows.  What does not answer the step changes
/// nothing.
pub open spec fn ground_follows(
    step: GroundStep,
    event: GroundEvent,
    out: Result<GroundStep, DaemonResponse>,
) -> bool {
    match (step, event) {
        (GroundStep::Embedder, GroundEvent::Embedder(Ok(_))) => out == Ok::<
            GroundStep,
            DaemonResponse,
        >(GroundStep::Crossencoder { embedder: true }),
        (GroundStep::Embedder, GroundEvent::Embedder(Err(detail))) => failed(out, detail@),
        (GroundStep::Crossencoder { embedder }, GroundEvent::Crossencoder(found)) => out == Ok::<
            GroundStep,
            DaemonResponse,
        >(GroundStep::Search { embedder, crossencoder: found }),
        (
            GroundStep::Search { embedder, crossencoder },
            GroundEvent::Searched(Ok(_)),
        ) => out == Ok::<GroundStep, DaemonResponse>(GroundStep::Render),
        (
            GroundStep::Search { embedder, crossencoder },
            GroundEvent::Searched(Err(detail)),
        ) => failed(out, detail@),
        _ => out == Ok::<GroundStep, DaemonResponse>(step),
    }
}

/// The step that follows.  An embedder that cannot be had and a search that
/// fails end the request; a reranker that cannot be had does not.
pub fn ground_next(step: GroundStep, event: GroundEvent) -> (out: Result<
    GroundStep,
    DaemonResponse,
>)
    ensures
        ground_follows(step, event, out),
{
    match (step, event) {
        (GroundStep::Embedder, GroundEvent::Embedder(got)) => match got {
            Ok(_) => Ok(GroundStep::Crossencoder { embedder: true }),
            Err(detail) => Err(DaemonResponse::internal(detail.as_str())),
        },
        (GroundStep::Crossencoder { embedder }, GroundEvent::Crossencoder(found)) => Ok(
            GroundStep::Search { embedder, crossencoder: found },
        ),
        (GroundStep::Search { embedder, crossencoder }, GroundEvent::Searched(got)) => match got {
            Ok(_) => Ok(GroundStep::Render),
            Err(detail) => Err(DaemonResponse::internal(detail.as_str())),
        },
        _ => Ok(step),
    }
}

/// A remark on a search.
#[derive(Debug, Clone, PartialEq, Eq)]
pub struct Warning {
    pub code: String,
    pub message: String,
}

/// The code of a remark on a search of all corpora.
pub const UNION_WARNING: &'static str = "cross-repo-union";

/// Whether the remarks are those on how the configuration came about.
pub open spec fn are_union_warnings(list: Seq<Warning>, notes: Seq<Seq<char>>) -> bool {
    &&& list.len() == notes.len()
    &&& forall|i: int|
        0 <= i < list.len() ==> (#[trigger] list[i]).code@ == UNION_WARNING@ && list[i].message@
            == notes[i]
}

/// The remarks that are added to those of a search: how the configuration came
/// about, where all corpora were searched.
pub fn ground_warnings(plan: &GroundPlan, notes: &Vec<String>) -> (out: Vec<Warning>)
    ensures
        plan.target is Union ==> are_union_warnings(out@, views(notes@)),
        plan.target is Single ==> out@.len() == 0,
{
    let mut out: Vec<Warning> = Vec::new();
    match &plan.target {
        GroundTarget::Single(_) => {},
        GroundTarget::Union(_) => {
            for i in 0..notes.len()
                invariant
                    out@.len() == i,
                    forall|j: int|
                        0 <= j < i ==> (#[trigger] out@[j]).code@ == UNION_WARNING@
                            && out@[j].message@ == notes@[j]@,
            {
                out.push(Warning { code: owned(UNION_WARNING), message: notes[i].clone() });
            }
        },
    }
    out
}

/// A named corpus is the only one that is searched.
pub proof fn named_corpus_is_searched_alone(
    plan: GroundPlan,
    cfg: crate::config::ConfigModel,
    default_wiki: Option<Seq<char>>,
    req: GroundRequest,
    embeddings_enabled: bool,
)
    requires
        is_ground_plan(plan, cfg, default_wiki, req, embeddings_enabled),
        req.corpus is Some,
    ensures
        plan.target matches GroundTarget::Single(corpus) && corpus@.name == req.corpus->0@,
{
    crate::corpus::explicit_corpus_wins(
        all_corpora(cfg.corpora, cfg.repositories),
        default_wiki,
        req.corpus->0@,
    );
}

/// Inside a repository whose wiki is known, a search that names no corpus goes
/// to that wiki.
pub proof fn search_inside_repository_goes_to_its_wiki(
    plan: GroundPlan,
    cfg: crate::config::ConfigModel,
    wiki: Seq<char>,
    req: GroundRequest,
    embeddings_enabled: bool,
)
    requires
        is_ground_plan(plan, cfg, Some(wiki), req, embeddings_enabled),
        req.corpus is None,
        crate::corpus::corpus_names(all_corpora(cfg.corpora, cfg.repositories)).contains(wiki),
    ensures
        plan.target matches GroundTarget::Single(corpus) && corpus@.name == wiki,
{
    crate::corpus::corpus_named_is_found(all_corpora(cfg.corpora, cfg.repositories), wiki);
}

/// A search returns as much as it asks for, and where it does not say, as much as
/// is configured, fifty results at most; it goes to all corpora where it names
/// none and lies in no repository.
pub proof fn searches_return_what_they_ask_for(
    plan: GroundPlan,
    cfg: crate::config::ConfigModel,
    default_wiki: Option<Seq<char>>,
    req: GroundRequest,
    embeddings_enabled: bool,
)
    requires
        is_ground_plan(plan, cfg, default_wiki, req, embeddings_enabled),
    ensures
        req.top_files matches Some(n) ==> plan.opts.top_files == n,
        req.top_files is None ==> plan.opts.top_files == cfg.search.top_files_default,
        req.chunks_per_file matches Some(n) ==> plan.opts.chunks_per_file == n,
        req.chunks_per_file is None ==> plan.opts.chunks_per_file
            == cfg.search.chunks_per_file_default,
        req.limit matches Some(n) ==> plan.opts.limit == n,
        req.limit is None ==> plan.opts.limit == 50,
        plan.snippet_chars == req.snippet_chars,
        plan.use_embedder == embeddings_enabled,
        req.corpus is None && default_wiki is None ==> (plan.target matches GroundTarget::Union(
            list,
        ) && corpus_models(list@) == all_corpora(cfg.corpora, cfg.repositories)),
        req.corpus is Some || default_wiki is Some ==> plan.target is Single,
{
}

/// A search is made with the embedder that it needs and with the reranker where
/// one can be had, and is then answered; without an embedder that it needs it is
/// not made.
pub proof fn searches_are_made_with_what_there_is(
    plan: GroundPlan,
    first: GroundStep,
    found: bool,
    detail: String,
    ready: Result<GroundStep, DaemonResponse>,
    missing: Result<GroundStep, DaemonResponse>,
    reranked: Result<GroundStep, DaemonResponse>,
)
    requires
        ground_follows(GroundStep::Embedder, GroundEvent::Embedder(Ok(())), ready),
        ground_follows(GroundStep::Embedder, GroundEvent::Embedder(Err(detail)), missing),
        ground_follows(
            GroundStep::Crossencoder { embedder: plan.use_embedder },
            GroundEvent::Crossencoder(found),
            reranked,
        ),
    ensures
        ready == Ok::<GroundStep, DaemonResponse>(GroundStep::Crossencoder { embedder: true }),
        failed(missing, detail@),
        reranked == Ok::<GroundStep, DaemonResponse>(
            GroundStep::Search { embedder: plan.use_embedder, crossencoder: found },
        ),
{
}

/// The requests that write take the lane for writes, and those that read do not.
pub proof fn writers_take_the_lane(payload: DaemonRequestPayload)
    ensures
        mutates(payload) <==> (payload matches DaemonRequestPayload::Index(_)) || (
        payload matches DaemonRequestPayload::AddMarkdown(_)) || (
        payload matches DaemonRequestPayload::DeleteMarkdown(_)) || (
        payload matches DaemonRequestPayload::GlobalizeMarkdown(_)),
        !(mutates(payload) && is_control(payload)),
{
}

/// A corpus is listed under its name, with all of its paths.
pub proof fn corpora_are_listed_as_they_are(entry: CorpusEntry, corpus: CorpusModel)
    requires
        is_entry(entry, corpus),
    ensures
        entry.name@ == corpus.name,
        entry.paths@.len() == corpus.paths.len(),
        forall|i: int| 0 <= i < corpus.paths.len() ==> (#[trigger] entry.paths@[i])@ == corpus.paths[i],
{
    assert forall|i: int| 0 <= i < corpus.paths.len() implies (#[trigger] entry.paths@[i])@
        == corpus.paths[i] by {
        assert(views(entry.paths@)[i] == entry.paths@[i]@);
    }
}

/// That all corpora were searched is remarked on with every note on how they came
/// together, in their order.
pub proof fn every_note_is_a_remark(list: Seq<Warning>, notes: Seq<Seq<char>>)
    requires
        are_union_warnings(list, notes),
    ensures
        list.len() == notes.len(),
        forall|i: int|
            0 <= i < notes.len() ==> (#[trigger] list[i]).message@ == notes[i] && list[i].code@
                == "cross-repo-union"@,
{
}

} // verus!
