//! The two layers of the configuration: the user's baseline and what the
//! repository around the working directory adds to it.

use vstd::prelude::*;
use vstd::string::StringExecFns;

use crate::config::{
    config_fault, default_config, is_usable, load_fault, normalize, normalized, parse_message,
    resolve_repo_layer_paths, resolved_config, validate, Config, ConfigModel, EmbeddingsConfig,
    LoggingConfig, SearchConfig, StorageConfig, WatchConfig,
};
use crate::corpus::{
    all_corpora, clear_of, copy_corpora, copy_repositories, corpus_names, repo_corpus, repository_names,
    source_corpus, wiki_corpus, with_corpora, with_repositories, RepoCorpusKind,
};
use crate::error::{is_config_error, HallouminateError, Outcome};
use crate::path::{
    absolute, ends_in_name, is_absolute, join, joined, parent, parent_of, parent_of_joined_name,
};
use crate::text::{
    cat2, cat3, cat4, cat5, debug_quote, debug_text, decimal, decimal_text, opt_str_view, opt_view,
    owned, owned_opt, same, views,
};
use crate::union::{
    repositories_of, rooted_models, union_config, union_notes, union_repositories,
    union_with_found_is_usable, union_with_nothing_is_the_baseline, Rooted,
};

verus! {

/// A value of the configuration that is not a list.
pub trait Scalar: Sized {
    /// What the value is modelled by.
    type Model;

    /// The model of the value.
    spec fn model(&self) -> Self::Model;

    /// How a message shows the value.
    spec fn shown(model: Self::Model) -> Seq<char>;

    /// Whether two values are the same.
    fn is_same(&self, other: &Self) -> (out: bool)
        ensures
            out == (self.model() == other.model()),
    ;

    /// How a message shows the value.
    fn show(&self) -> (out: String)
        ensures
            out@ == Self::shown(self.model()),
    ;
}

impl Scalar for usize {
    type Model = usize;

    open spec fn model(&self) -> usize {
        *self
    }

    open spec fn shown(model: usize) -> Seq<char> {
        decimal(model as nat)
    }

    fn is_same(&self, other: &usize) -> (out: bool) {
        *self == *other
    }

    fn show(&self) -> (out: String) {
        decimal_text(*self as u64)
    }
}

impl Scalar for u64 {
    type Model = u64;

    open spec fn model(&self) -> u64 {
        *self
    }

    open spec fn shown(model: u64) -> Seq<char> {
        decimal(model as nat)
    }

    fn is_same(&self, other: &u64) -> (out: bool) {
        *self == *other
    }

    fn show(&self) -> (out: String) {
        decimal_text(*self)
    }
}

impl Scalar for bool {
    type Model = bool;

    open spec fn model(&self) -> bool {
        *self
    }

    open spec fn shown(model: bool) -> Seq<char> {
        if model {
            "true"@
        } else {
            "false"@
        }
    }

    fn is_same(&self, other: &bool) -> (out: bool) {
        *self == *other
    }

    fn show(&self) -> (out: String) {
        if *self {
            owned("true")
        } else {
            owned("false")
        }
    }
}

impl Scalar for String {
    type Model = Seq<char>;

    open spec fn model(&self) -> Seq<char> {
        self@
    }

    open spec fn shown(model: Seq<char>) -> Seq<char> {
        debug_text(model)
    }

    fn is_same(&self, other: &String) -> (out: bool) {
        same(self.as_str(), other.as_str())
    }

    fn show(&self) -> (out: String) {
        debug_quote(self.as_str())
    }
}

impl Scalar for Option<String> {
    type Model = Option<Seq<char>>;

    open spec fn model(&self) -> Option<Seq<char>> {
        opt_view(*self)
    }

    open spec fn shown(model: Option<Seq<char>>) -> Seq<char> {
        match model {
            Some(text) => "Some("@ + debug_text(text) + ")"@,
            None => "None"@,
        }
    }

    fn is_same(&self, other: &Option<String>) -> (out: bool) {
        match (self, other) {
            (Some(a), Some(b)) => same(a.as_str(), b.as_str()),
            (None, None) => true,
            _ => false,
        }
    }

    fn show(&self) -> (out: String) {
        match self {
            Some(text) => {
                let quoted = debug_quote(text.as_str());
                cat3("Some(", quoted.as_str(), ")")
            },
            None => owned("None"),
        }
    }
}

/// The value that two layers agree on: a layer that holds the default leaves
/// the choice to the other.  None where both chose, and chose differently.
pub open spec fn merged_value<M>(baseline: M, repo: M, default: M) -> Option<M> {
    if repo == default {
        Some(baseline)
    } else if baseline == default || baseline == repo {
        Some(repo)
    } else {
        None
    }
}

/// Where the baseline came from, as a message says it.
pub open spec fn baseline_source(path: Option<Seq<char>>) -> Seq<char> {
    match path {
        Some(p) => " (baseline at "@ + p + ")"@,
        None => " (baseline)"@,
    }
}

/// Where the repository's layer came from, as a message says it.
pub open spec fn repo_source(path: Option<Seq<char>>) -> Seq<char> {
    match path {
        Some(p) => " (repo at "@ + p + ")"@,
        None => " (repo layer)"@,
    }
}

/// The message where both layers chose, and chose differently.
pub open spec fn conflict_message(
    field: Seq<char>,
    baseline: Seq<char>,
    repo: Seq<char>,
    baseline_path: Option<Seq<char>>,
    repo_path: Option<Seq<char>>,
) -> Seq<char> {
    "scalar conflict on "@ + field + ": baseline = "@ + baseline + baseline_source(baseline_path)
        + ", repo = "@ + repo + repo_source(repo_path)
}

/// The value that two layers agree on; an error that names both values and
/// where they came from where they do not.
pub fn merge_scalar<T: Scalar>(
    field: &str,
    baseline: T,
    repo: T,
    default: T,
    baseline_path: Option<&str>,
    repo_path: Option<&str>,
) -> (out: Outcome<T>)
    ensures
        match merged_value(baseline.model(), repo.model(), default.model()) {
            Some(value) => out matches Ok(merged) && merged.model() == value,
            None => is_config_error(
                out,
                conflict_message(
                    field@,
                    T::shown(baseline.model()),
                    T::shown(repo.model()),
                    opt_str_view(baseline_path),
                    opt_str_view(repo_path),
                ),
            ),
        },
{
    let baseline_set = !baseline.is_same(&default);
    let repo_set = !repo.is_same(&default);
    if !baseline_set && !repo_set {
        return Ok(default);
    }
    if baseline_set && !repo_set {
        return Ok(baseline);
    }
    if !baseline_set && repo_set {
        return Ok(repo);
    }
    if baseline.is_same(&repo) {
        return Ok(baseline);
    }
    let baseline_src = match baseline_path {
        Some(p) => cat3(" (baseline at ", p, ")"),
        None => owned(" (baseline)"),
    };
    let repo_src = match repo_path {
        Some(p) => cat3(" (repo at ", p, ")"),
        None => owned(" (repo layer)"),
    };
    let mut message = cat3("scalar conflict on ", field, ": baseline = ");
    message.append(baseline.show().as_str());
    message.append(baseline_src.as_str());
    message.append(", repo = ");
    message.append(repo.show().as_str());
    message.append(repo_src.as_str());
    Err(HallouminateError::Config(message))
}

/// The reranker that two layers agree on; none is the default.
pub fn merge_crossencoder(
    baseline: Option<String>,
    repo: Option<String>,
    baseline_path: Option<&str>,
    repo_path: Option<&str>,
) -> (out: Outcome<Option<String>>)
    ensures
        match merged_value(opt_view(baseline), opt_view(repo), None) {
            Some(value) => out matches Ok(merged) && opt_view(merged) == value,
            None => is_config_error(
                out,
                conflict_message(
                    "search.crossencoder"@,
                    <Option<String> as Scalar>::shown(opt_view(baseline)),
                    <Option<String> as Scalar>::shown(opt_view(repo)),
                    opt_str_view(baseline_path),
                    opt_str_view(repo_path),
                ),
            ),
        },
{
    merge_scalar("search.crossencoder", baseline, repo, None, baseline_path, repo_path)
}

/// The first value on which the layers disagree, as a message; none where they
/// agree.
pub open spec fn merge_conflict(
    baseline: ConfigModel,
    repo: ConfigModel,
    baseline_path: Option<Seq<char>>,
    repo_path: Option<Seq<char>>,
) -> Option<Seq<char>> {
    let d = default_config();
    if merged_value(
        baseline.search.top_files_default,
        repo.search.top_files_default,
        d.search.top_files_default,
    ) is None {
        Some(
            conflict_message(
                "search.top_files_default"@,
                decimal(baseline.search.top_files_default as nat),
                decimal(repo.search.top_files_default as nat),
                baseline_path,
                repo_path,
            ),
        )
    } else if merged_value(
        baseline.search.chunks_per_file_default,
        repo.search.chunks_per_file_default,
        d.search.chunks_per_file_default,
    ) is None {
        Some(
            conflict_message(
                "search.chunks_per_file_default"@,
                decimal(baseline.search.chunks_per_file_default as nat),
                decimal(repo.search.chunks_per_file_default as nat),
                baseline_path,
                repo_path,
            ),
        )
    } else if merged_value(baseline.model, repo.model, d.model) is None {
        Some(
            conflict_message(
                "embeddings.model"@,
                debug_text(baseline.model),
                debug_text(repo.model),
                baseline_path,
                repo_path,
            ),
        )
    } else if merged_value(baseline.cache_dir, repo.cache_dir, d.cache_dir) is None {
        Some(
            conflict_message(
                "embeddings.cache_dir"@,
                debug_text(baseline.cache_dir),
                debug_text(repo.cache_dir),
                baseline_path,
                repo_path,
            ),
        )
    } else if merged_value(
        baseline.watch.debounce_ms,
        repo.watch.debounce_ms,
        d.watch.debounce_ms,
    ) is None {
        Some(
            conflict_message(
                "watch.debounce_ms"@,
                decimal(baseline.watch.debounce_ms as nat),
                decimal(repo.watch.debounce_ms as nat),
                baseline_path,
                repo_path,
            ),
        )
    } else if merged_value(
        baseline.watch.failure_reminder_secs,
        repo.watch.failure_reminder_secs,
        d.watch.failure_reminder_secs,
    ) is None {
        Some(
            conflict_message(
                "watch.failure_reminder_secs"@,
                decimal(baseline.watch.failure_reminder_secs as nat),
                decimal(repo.watch.failure_reminder_secs as nat),
                baseline_path,
                repo_path,
            ),
        )
    } else if merged_value(baseline.ground_dir, repo.ground_dir, d.ground_dir) is None {
        Some(
            conflict_message(
                "storage.ground_dir"@,
                debug_text(baseline.ground_dir),
                debug_text(repo.ground_dir),
                baseline_path,
                repo_path,
            ),
        )
    } else if merged_value(
        baseline.logging.max_file_bytes,
        repo.logging.max_file_bytes,
        d.logging.max_file_bytes,
    ) is None {
        Some(
            conflict_message(
                "logging.max_file_bytes"@,
                decimal(baseline.logging.max_file_bytes as nat),
                decimal(repo.logging.max_file_bytes as nat),
                baseline_path,
                repo_path,
            ),
        )
    } else if merged_value(
        baseline.logging.max_total_bytes,
        repo.logging.max_total_bytes,
        d.logging.max_total_bytes,
    ) is None {
        Some(
            conflict_message(
                "logging.max_total_bytes"@,
                decimal(baseline.logging.max_total_bytes as nat),
                decimal(repo.logging.max_total_bytes as nat),
                baseline_path,
                repo_path,
            ),
        )
    } else {
        None
    }
}

/// The two layers together, where they agree: the lists of the baseline and
/// then those of the repository, and the values that they agree on.
pub open spec fn merged(baseline: ConfigModel, repo: ConfigModel) -> ConfigModel {
    let d = default_config();
    ConfigModel {
        corpora: baseline.corpora + repo.corpora,
        repositories: baseline.repositories + repo.repositories,
        search: SearchConfig {
            top_files_default: merged_value(
                baseline.search.top_files_default,
                repo.search.top_files_default,
                d.search.top_files_default,
            )->0,
            chunks_per_file_default: merged_value(
                baseline.search.chunks_per_file_default,
                repo.search.chunks_per_file_default,
                d.search.chunks_per_file_default,
            )->0,
        },
        embeddings_enabled: merged_value(
            baseline.embeddings_enabled,
            repo.embeddings_enabled,
            d.embeddings_enabled,
        )->0,
        model: merged_value(baseline.model, repo.model, d.model)->0,
        quantized: merged_value(baseline.quantized, repo.quantized, d.quantized)->0,
        cache_dir: merged_value(baseline.cache_dir, repo.cache_dir, d.cache_dir)->0,
        watch: WatchConfig {
            debounce_ms: merged_value(
                baseline.watch.debounce_ms,
                repo.watch.debounce_ms,
                d.watch.debounce_ms,
            )->0,
            failure_reminder_secs: merged_value(
                baseline.watch.failure_reminder_secs,
                repo.watch.failure_reminder_secs,
                d.watch.failure_reminder_secs,
            )->0,
        },
        ground_dir: merged_value(baseline.ground_dir, repo.ground_dir, d.ground_dir)->0,
        logging: LoggingConfig {
            max_file_bytes: merged_value(
                baseline.logging.max_file_bytes,
                repo.logging.max_file_bytes,
                d.logging.max_file_bytes,
            )->0,
            max_total_bytes: merged_value(
                baseline.logging.max_total_bytes,
                repo.logging.max_total_bytes,
                d.logging.max_total_bytes,
            )->0,
        },
    }
}

/// Why the layers cannot be merged, if they cannot.
pub open spec fn merge_fault(
    baseline: ConfigModel,
    repo: ConfigModel,
    baseline_path: Option<Seq<char>>,
    repo_path: Option<Seq<char>>,
) -> Option<Seq<char>> {
    match merge_conflict(baseline, repo, baseline_path, repo_path) {
        Some(conflict) => Some(conflict),
        None => config_fault(merged(baseline, repo)),
    }
}

/// The two layers together.  An error that names the first value on which they
/// disagree, with the files that the values came from, or that says why the
/// lists cannot stand together.
pub fn merge_layers_with_sources(
    baseline: &Config,
    repo: &Config,
    baseline_path: Option<&str>,
    repo_path: Option<&str>,
) -> (out: Outcome<Config>)
    ensures
        match merge_fault(
            baseline@,
            repo@,
            opt_str_view(baseline_path),
            opt_str_view(repo_path),
        ) {
            Some(fault) => is_config_error(out, fault),
            None => out matches Ok(cfg) && cfg@ == merged(baseline@, repo@),
        },
{
    let defaults = Config::default();
    let corpora = with_corpora(copy_corpora(&baseline.corpora), &repo.corpora);
    let repositories = with_repositories(
        copy_repositories(&baseline.repositories),
        &repo.repositories,
    );
    let top_files_default: usize = match merge_scalar(
        "search.top_files_default",
        baseline.search.top_files_default,
        repo.search.top_files_default,
        defaults.search.top_files_default,
        baseline_path,
        repo_path,
    ) {
        Ok(value) => value,
        Err(e) => {
            return Err(e);
        },
    };
    let chunks_per_file_default: usize = match merge_scalar(
        "search.chunks_per_file_default",
        baseline.search.chunks_per_file_default,
        repo.search.chunks_per_file_default,
        defaults.search.chunks_per_file_default,
        baseline_path,
        repo_path,
    ) {
        Ok(value) => value,
        Err(e) => {
            return Err(e);
        },
    };
    let enabled: bool = match merge_scalar(
        "embeddings.enabled",
        baseline.embeddings.enabled,
        repo.embeddings.enabled,
        defaults.embeddings.enabled,
        baseline_path,
        repo_path,
    ) {
        Ok(value) => value,
        Err(e) => {
            return Err(e);
        },
    };
    let model = match merge_scalar(
        "embeddings.model",
        baseline.embeddings.model.clone(),
        repo.embeddings.model.clone(),
        defaults.embeddings.model.clone(),
        baseline_path,
        repo_path,
    ) {
        Ok(value) => value,
        Err(e) => {
            return Err(e);
        },
    };
    let quantized: bool = match merge_scalar(
        "embeddings.quantized",
        baseline.embeddings.quantized,
        repo.embeddings.quantized,
        defaults.embeddings.quantized,
        baseline_path,
        repo_path,
    ) {
        Ok(value) => value,
        Err(e) => {
            return Err(e);
        },
    };
    let cache_dir = match merge_scalar(
        "embeddings.cache_dir",
        baseline.embeddings.cache_dir.clone(),
        repo.embeddings.cache_dir.clone(),
        defaults.embeddings.cache_dir.clone(),
        baseline_path,
        repo_path,
    ) {
        Ok(value) => value,
        Err(e) => {
            return Err(e);
        },
    };
    let debounce_ms: u64 = match merge_scalar(
        "watch.debounce_ms",
        baseline.watch.debounce_ms,
        repo.watch.debounce_ms,
        defaults.watch.debounce_ms,
        baseline_path,
        repo_path,
    ) {
        Ok(value) => value,
        Err(e) => {
            return Err(e);
        },
    };
    let failure_reminder_secs: u64 = match merge_scalar(
        "watch.failure_reminder_secs",
        baseline.watch.failure_reminder_secs,
        repo.watch.failure_reminder_secs,
        defaults.watch.failure_reminder_secs,
        baseline_path,
        repo_path,
    ) {
        Ok(value) => value,
        Err(e) => {
            return Err(e);
        },
    };
    let ground_dir = match merge_scalar(
        "storage.ground_dir",
        baseline.storage.ground_dir.clone(),
        repo.storage.ground_dir.clone(),
        defaults.storage.ground_dir.clone(),
        baseline_path,
        repo_path,
    ) {
        Ok(value) => value,
        Err(e) => {
            return Err(e);
        },
    };
    let max_file_bytes: u64 = match merge_scalar(
        "logging.max_file_bytes",
        baseline.logging.max_file_bytes,
        repo.logging.max_file_bytes,
        defaults.logging.max_file_bytes,
        baseline_path,
        repo_path,
    ) {
        Ok(value) => value,
        Err(e) => {
            return Err(e);
        },
    };
    let max_total_bytes: u64 = match merge_scalar(
        "logging.max_total_bytes",
        baseline.logging.max_total_bytes,
        repo.logging.max_total_bytes,
        defaults.logging.max_total_bytes,
        baseline_path,
        repo_path,
    ) {
        Ok(value) => value,
        Err(e) => {
            return Err(e);
        },
    };
    let cfg = Config {
        corpora,
        repositories,
        search: SearchConfig { top_files_default, chunks_per_file_default },
        embeddings: EmbeddingsConfig { enabled, model, quantized, cache_dir },
        watch: WatchConfig { debounce_ms, failure_reminder_secs },
        storage: StorageConfig { ground_dir },
        logging: LoggingConfig { max_file_bytes, max_total_bytes },
    };
    proof {
        assert(cfg@ =~= merged(baseline@, repo@));
    }
    match validate(&cfg) {
        Ok(_) => Ok(cfg),
        Err(e) => Err(e),
    }
}

/// The two layers together, where it is not known which files they came from.
pub fn merge_layers(baseline: &Config, repo: &Config) -> (out: Outcome<Config>)
    ensures
        match merge_fault(baseline@, repo@, None, None) {
            Some(fault) => is_config_error(out, fault),
            None => out matches Ok(cfg) && cfg@ == merged(baseline@, repo@),
        },
{
    merge_layers_with_sources(baseline, repo, None, None)
}

/// A repository's layer that sets nothing leaves the baseline as it is, and a
/// baseline that sets nothing leaves the repository's layer as it is.
pub proof fn defaults_are_neutral(cfg: ConfigModel)
    ensures
        merge_conflict(cfg, default_config(), None, None) is None,
        merged(cfg, default_config()) == cfg,
        merge_conflict(default_config(), cfg, None, None) is None,
        merged(default_config(), cfg) == cfg,
{
    assert(merged(cfg, default_config()) =~= cfg);
    assert(merged(default_config(), cfg) =~= cfg);
}

/// Which layer is the baseline does not matter to the values: the layers
/// disagree either way round or neither, and agree on the same values.
pub proof fn values_merge_alike_both_ways(a: ConfigModel, b: ConfigModel)
    ensures
        merge_conflict(a, b, None, None) is Some <==> merge_conflict(b, a, None, None) is Some,
        merge_conflict(a, b, None, None) is None ==> {
            let ab = merged(a, b);
            let ba = merged(b, a);
            &&& ab.search == ba.search
            &&& ab.embeddings_enabled == ba.embeddings_enabled
            &&& ab.model == ba.model
            &&& ab.quantized == ba.quantized
            &&& ab.cache_dir == ba.cache_dir
            &&& ab.watch == ba.watch
            &&& ab.ground_dir == ba.ground_dir
            &&& ab.logging == ba.logging
        },
{
}

/// Where the values came from changes the wording of a conflict only.
pub proof fn sources_do_not_decide(
    a: ConfigModel,
    b: ConfigModel,
    a_path: Option<Seq<char>>,
    b_path: Option<Seq<char>>,
)
    ensures
        merge_fault(a, b, a_path, b_path) is Some <==> merge_fault(a, b, None, None) is Some,
{
}

/// What is merged can be used, and its corpora can be listed.
pub proof fn merged_is_usable(
    a: ConfigModel,
    b: ConfigModel,
    a_path: Option<Seq<char>>,
    b_path: Option<Seq<char>>,
)
    requires
        merge_fault(a, b, a_path, b_path) is None,
    ensures
        config_fault(merged(a, b)) is None,
        crate::corpus::corpora_fault(merged(a, b).corpora, merged(a, b).repositories) is None,
{
}

/// Where a layer of a repository is kept below its root.
pub open spec fn config_path_at(level: Seq<char>) -> Seq<char> {
    joined(joined(level, ".hallouminate"@), "config.toml"@)
}

/// The directory from which the search for a repository's layer starts: a
/// relative path is seen from the directory of the process.
pub fn absolute_cwd(cwd: &str, here: &str) -> (out: String)
    ensures
        out@ == if absolute(cwd@) {
            cwd@
        } else {
            joined(here@, cwd@)
        },
{
    if is_absolute(cwd) {
        owned(cwd)
    } else {
        join(here, cwd)
    }
}

/// What was found in one directory on the way up.
pub struct Level {
    /// The directory.
    pub dir: String,
    /// Whether it holds a configuration file of the repository.
    pub has_config: bool,
    /// Whether it holds a `.git` entry, be it a directory or a file.
    pub has_git: bool,
}

/// How the search for a repository's layer ended.
#[derive(Debug, PartialEq, Eq)]
pub enum Discovery {
    /// The layer is in this file.
    Found(String),
    /// The root of a repository was reached first; the text says which.
    NoConfigInRepo(String),
    /// There is neither a layer nor a repository on the way up.
    AboveAllRepos(String),
}

/// The first of the levels that ends the search.
pub open spec fn first_stop(levels: Seq<Level>, from: int) -> Option<int>
    decreases levels.len() - from,
{
    if from < 0 || from >= levels.len() {
        None
    } else if levels[from].has_config || levels[from].has_git {
        Some(from)
    } else {
        first_stop(levels, from + 1)
    }
}

/// The message where the root of a repository was reached first.
pub open spec fn stopped_message(cwd: Seq<char>, level: Seq<char>) -> Seq<char> {
    "no .hallouminate/config.toml found walking up from "@ + cwd + " (stopped at repo root "@
        + level + ")"@
}

/// The message where the root of the file system was reached.
pub open spec fn root_message(cwd: Seq<char>) -> Seq<char> {
    "no .hallouminate/config.toml found walking up from "@ + cwd
        + " (reached filesystem root without hitting a .git boundary)"@
}

/// How the search up from `cwd` ends; `levels` holds what was found in the
/// directory itself and in each one above it.
pub open spec fn discovered(cwd: Seq<char>, levels: Seq<Level>, out: Discovery) -> bool {
    match first_stop(levels, 0) {
        Some(i) => if levels[i].has_config {
            out matches Discovery::Found(path) && path@ == config_path_at(levels[i].dir@)
        } else {
            out matches Discovery::NoConfigInRepo(m) && m@ == stopped_message(
                cwd,
                levels[i].dir@,
            )
        },
        None => out matches Discovery::AboveAllRepos(m) && m@ == root_message(cwd),
    }
}

/// How the search for a repository's layer up from `cwd` ends.  The first file
/// wins; a `.git` entry without one ends the search, and so does the root of
/// the file system.
pub fn discover(cwd: &str, levels: &Vec<Level>) -> (out: Discovery)
    ensures
        discovered(cwd@, levels@, out),
{
    for i in 0..levels.len()
        invariant
            first_stop(levels@, 0) == first_stop(levels@, i as int),
    {
        if levels[i].has_config {
            let dir = join(levels[i].dir.as_str(), ".hallouminate");
            return Discovery::Found(join(dir.as_str(), "config.toml"));
        }
        if levels[i].has_git {
            return Discovery::NoConfigInRepo(
                cat5(
                    "no .hallouminate/config.toml found walking up from ",
                    cwd,
                    " (stopped at repo root ",
                    levels[i].dir.as_str(),
                    ")",
                ),
            );
        }
    }
    Discovery::AboveAllRepos(
        cat3(
            "no .hallouminate/config.toml found walking up from ",
            cwd,
            " (reached filesystem root without hitting a .git boundary)",
        ),
    )
}

/// The file of the repository's layer; an error where the search found none.
pub fn discover_repo_config(cwd: &str, levels: &Vec<Level>) -> (out: Outcome<String>)
    ensures
        match first_stop(levels@, 0) {
            Some(i) => if levels@[i].has_config {
                out matches Ok(path) && path@ == config_path_at(levels@[i].dir@)
            } else {
                is_config_error(out, stopped_message(cwd@, levels@[i].dir@))
            },
            None => is_config_error(out, root_message(cwd@)),
        },
{
    match discover(cwd, levels) {
        Discovery::Found(path) => Ok(path),
        Discovery::NoConfigInRepo(message) => Err(HallouminateError::Config(message)),
        Discovery::AboveAllRepos(message) => Err(HallouminateError::Config(message)),
    }
}

/// The search stops at the nearest directory that ends it: nothing below it
/// holds a layer or is the root of a repository.
pub proof fn discovery_takes_the_nearest(levels: Seq<Level>)
    ensures
        match first_stop(levels, 0) {
            Some(i) => 0 <= i < levels.len() && (levels[i].has_config || levels[i].has_git)
                && forall|j: int|
                0 <= j < i ==> !(#[trigger] levels[j]).has_config && !levels[j].has_git,
            None => forall|j: int|
                0 <= j < levels.len() ==> !(#[trigger] levels[j]).has_config && !levels[j].has_git,
        },
{
    first_stop_from(levels, 0);
}

proof fn first_stop_from(levels: Seq<Level>, from: int)
    requires
        0 <= from <= levels.len(),
    ensures
        match first_stop(levels, from) {
            Some(i) => from <= i < levels.len() && (levels[i].has_config || levels[i].has_git)
                && forall|j: int|
                from <= j < i ==> !(#[trigger] levels[j]).has_config && !levels[j].has_git,
            None => forall|j: int|
                from <= j < levels.len() ==> !(#[trigger] levels[j]).has_config
                    && !levels[j].has_git,
        },
    decreases levels.len() - from,
{
    if from < levels.len() && !(levels[from].has_config || levels[from].has_git) {
        first_stop_from(levels, from + 1);
    }
}

/// The root that the paths of a repository's layer are seen from: the directory
/// above the one that holds the file, or that one where there is none above.
pub open spec fn layer_root(config_path: Seq<char>) -> Option<Seq<char>> {
    match parent(config_path) {
        Some(dir) => match parent(dir) {
            Some(root) => Some(root),
            None => Some(dir),
        },
        None => None,
    }
}

/// The root that the paths of a layer are seen from is the directory in which
/// the layer was found.
pub proof fn layer_root_is_where_it_was_found(level: Seq<char>)
    requires
        ends_in_name(level),
    ensures
        layer_root(config_path_at(level)) == Some(level),
{
    reveal_strlit(".hallouminate");
    reveal_strlit("config.toml");
    let dir = ".hallouminate"@;
    let file = "config.toml"@;
    assert(!dir.contains('/'));
    assert(!file.contains('/'));
    parent_of_joined_name(level, dir);
    parent_of_joined_name(joined(level, dir), file);
}

/// Why a repository's layer is refused, if it is.
pub open spec fn layer_fault(
    config_path: Seq<char>,
    decoded: Result<ConfigModel, Seq<char>>,
) -> Option<Seq<char>> {
    match decoded {
        Err(detail) => Some(parse_message(Some(config_path), detail)),
        Ok(cfg) => match layer_root(config_path) {
            None => Some("repo config path has no parent directory: "@ + config_path),
            Some(root) => load_fault(resolved_config(cfg, root)),
        },
    }
}

/// The model of a decoded configuration.
pub open spec fn decoded_model(decoded: Result<Config, String>) -> Result<ConfigModel, Seq<char>> {
    match decoded {
        Ok(cfg) => Ok(cfg@),
        Err(detail) => Err(detail@),
    }
}

/// The layer of a repository from what the decoder of its file returned.  Its
/// relative paths are seen from the root of the repository, so that `.` is that
/// root.
pub fn load_repo_layer(config_path: &str, decoded: Result<Config, String>) -> (out: Outcome<Config>)
    ensures
        match layer_fault(config_path@, decoded_model(decoded)) {
            Some(fault) => is_config_error(out, fault),
            None => out matches Ok(loaded) && Some(loaded@) == normalized(
                resolved_config(decoded_model(decoded)->Ok_0, layer_root(config_path@)->0),
            ),
        },
{
    let mut cfg = match decoded {
        Ok(cfg) => cfg,
        Err(detail) => {
            return Err(
                HallouminateError::Config(
                    cat4("parsing config at ", config_path, ": ", detail.as_str()),
                ),
            );
        },
    };
    let dir = match parent_of(config_path) {
        Some(dir) => dir,
        None => {
            return Err(
                HallouminateError::Config(
                    cat2("repo config path has no parent directory: ", config_path),
                ),
            );
        },
    };
    let root = match parent_of(dir.as_str()) {
        Some(root) => root,
        None => dir,
    };
    resolve_repo_layer_paths(&mut cfg, root.as_str());
    match normalize(&mut cfg) {
        Ok(_) => {},
        Err(e) => {
            return Err(e);
        },
    }
    match validate(&cfg) {
        Ok(_) => Ok(cfg),
        Err(e) => Err(e),
    }
}

/// Which files the effective configuration came from.
#[derive(Debug, Clone, PartialEq, Eq)]
pub struct ResolvedLayers {
    /// The file of the baseline, where it is known.
    pub xdg_path: Option<String>,
    /// The file of the repository's layer; none above all repositories.
    pub repo_path: Option<String>,
    /// What there is to say of how the layers came together.
    pub warnings: Vec<String>,
}

/// What is below a working directory that lies above all repositories.
pub struct Below {
    /// Where each repository of the baseline stands.
    pub baseline_roots: Vec<String>,
    /// The repositories that were found.
    pub found: Vec<Rooted>,
}

/// Whether the result is the configuration that a request sees above all
/// repositories.
pub open spec fn resolved_above(
    baseline: ConfigModel,
    below: Below,
    xdg_path: Option<Seq<char>>,
    out: Outcome<(Config, ResolvedLayers)>,
) -> bool {
    let roots = views(below.baseline_roots@);
    let found = rooted_models(below.found@);
    match config_fault(union_config(baseline, roots, found)) {
        Some(fault) => is_config_error(out, fault),
        None => out matches Ok((cfg, layers)) && cfg@ == union_config(baseline, roots, found)
            && opt_view(layers.xdg_path) == xdg_path && layers.repo_path is None && views(
            layers.warnings@,
        ) == union_notes(baseline, roots, found),
    }
}

/// Whether the result is the configuration that a request sees inside a
/// repository whose layer was found.
pub open spec fn resolved_inside(
    baseline: ConfigModel,
    path: Seq<char>,
    decoded: Result<ConfigModel, Seq<char>>,
    xdg_path: Option<Seq<char>>,
    out: Outcome<(Config, ResolvedLayers)>,
) -> bool {
    match layer_fault(path, decoded) {
        Some(fault) => is_config_error(out, fault),
        None => {
            let repo = normalized(resolved_config(decoded->Ok_0, layer_root(path)->0))->0;
            match merge_fault(baseline, repo, xdg_path, Some(path)) {
                Some(fault) => is_config_error(out, fault),
                None => out matches Ok((cfg, layers)) && cfg@ == merged(baseline, repo)
                    && opt_view(layers.xdg_path) == xdg_path && opt_view(layers.repo_path) == Some(
                    path,
                ) && layers.warnings@.len() == 0,
            }
        },
    }
}

/// The configuration that a request sees, from how the search for its layer
/// ended.  Inside a repository it is the baseline with the repository's layer,
/// and an error where the repository has none; above all repositories it is the
/// baseline with the repositories below the working directory.  `decoded` is
/// what the decoder returned for the file that was found.
pub fn resolve_for_cwd(
    baseline: &Config,
    discovery: Discovery,
    decoded: Result<Config, String>,
    below: &Below,
    xdg_path: Option<&str>,
) -> (out: Outcome<(Config, ResolvedLayers)>)
    requires
        below.baseline_roots@.len() == baseline.repositories@.len(),
    ensures
        match discovery {
            Discovery::NoConfigInRepo(message) => is_config_error(out, message@),
            Discovery::AboveAllRepos(_) => resolved_above(
                baseline@,
                *below,
                opt_str_view(xdg_path),
                out,
            ),
            Discovery::Found(path) => resolved_inside(
                baseline@,
                path@,
                decoded_model(decoded),
                opt_str_view(xdg_path),
                out,
            ),
        },
{
    match discovery {
        Discovery::NoConfigInRepo(message) => Err(HallouminateError::Config(message)),
        Discovery::AboveAllRepos(_) => {
            let (cfg, warnings) = union_repositories(baseline, &below.baseline_roots, &below.found);
            match validate(&cfg) {
                Ok(_) => Ok(
                    (
                        cfg,
                        ResolvedLayers { xdg_path: owned_opt(xdg_path), repo_path: None, warnings },
                    ),
                ),
                Err(e) => Err(e),
            }
        },
        Discovery::Found(path) => {
            let repo = match load_repo_layer(path.as_str(), decoded) {
                Ok(repo) => repo,
                Err(e) => {
                    return Err(e);
                },
            };
            let effective = match merge_layers_with_sources(
                baseline,
                &repo,
                xdg_path,
                Some(path.as_str()),
            ) {
                Ok(effective) => effective,
                Err(e) => {
                    return Err(e);
                },
            };
            Ok(
                (
                    effective,
                    ResolvedLayers {
                        xdg_path: owned_opt(xdg_path),
                        repo_path: Some(path),
                        warnings: Vec::new(),
                    },
                ),
            )
        },
    }
}

/// Where no repositories are below, a request above all repositories sees the
/// baseline.
pub proof fn above_all_repositories_the_baseline_stands(
    baseline: ConfigModel,
    below: Below,
    xdg_path: Option<Seq<char>>,
    out: Outcome<(Config, ResolvedLayers)>,
)
    requires
        config_fault(baseline) is None,
        below.found@.len() == 0,
        resolved_above(baseline, below, xdg_path, out),
    ensures
        out matches Ok((cfg, layers)) && cfg@ == baseline && layers.repo_path is None
            && layers.warnings@.len() == 0,
{
    assert(rooted_models(below.found@) =~= Seq::<crate::union::RootedModel>::empty());
    union_with_nothing_is_the_baseline(baseline, views(below.baseline_roots@));
    assert(views(out->Ok_0.1.warnings@).len() == out->Ok_0.1.warnings@.len());
}

/// A request above all repositories sees the usable baseline together with the
/// usable repositories that were found below, as long as no corpus that the user
/// declared has the name of one of theirs.  Every corpus that the user declared
/// can be asked for, and so can the wiki of every repository of the baseline; a
/// repository of which none of its name was found keeps its corpora.
pub proof fn above_all_repositories_all_corpora_are_seen(
    baseline: ConfigModel,
    below: Below,
    xdg_path: Option<Seq<char>>,
    out: Outcome<(Config, ResolvedLayers)>,
    i: int,
)
    requires
        config_fault(baseline) is None,
        forall|k: int|
            0 <= k < below.found@.len() ==> is_usable((#[trigger] below.found@[k])@.repository)
                && clear_of(baseline.corpora, below.found@[k]@.repository),
        resolved_above(baseline, below, xdg_path, out),
    ensures
        out matches Ok((cfg, layers)) && layers.repo_path is None && ({
            let all = all_corpora(cfg@.corpora, cfg@.repositories);
            &&& 0 <= i < baseline.corpora.len() ==> all.contains(baseline.corpora[i])
            &&& 0 <= i < baseline.repositories.len() ==> corpus_names(all).contains(
                repo_corpus(baseline.repositories[i].name, RepoCorpusKind::Wiki),
            )
            &&& 0 <= i < baseline.repositories.len() && !repository_names(
                repositories_of(rooted_models(below.found@)),
            ).contains(baseline.repositories[i].name) ==> all.contains(
                wiki_corpus(baseline.repositories[i]),
            ) && (baseline.repositories[i].corpus_paths.len() > 0 ==> all.contains(
                source_corpus(baseline.repositories[i]),
            ))
        }),
{
    let roots = views(below.baseline_roots@);
    let found = rooted_models(below.found@);
    assert forall|k: int| 0 <= k < found.len() implies is_usable((#[trigger] found[k]).repository)
        && clear_of(baseline.corpora, found[k].repository) by {
        assert(found[k] == below.found@[k]@);
    }
    union_with_found_is_usable(baseline, roots, found);
    let cfg = union_config(baseline, roots, found);
    let all = all_corpora(cfg.corpora, cfg.repositories);
    if 0 <= i < baseline.corpora.len() {
        assert(all[i] == all.take(baseline.corpora.len() as int)[i]);
    }
    if 0 <= i < baseline.repositories.len() {
        let repo = baseline.repositories[i];
        assert(corpus_names(all).contains(repo_corpus(repo.name, RepoCorpusKind::Wiki)));
    }
}

/// Whether two layers agree on a value: at most one of them chose it, or both
/// chose the same.
pub open spec fn agree<M>(baseline: M, repo: M, default: M) -> bool {
    repo == default || baseline == default || baseline == repo
}

/// What the layers together choose: the choice of the repository, and where it
/// made none, that of the baseline.
pub open spec fn choice<M>(baseline: M, repo: M, default: M) -> M {
    if repo == default {
        baseline
    } else {
        repo
    }
}

/// The layers can be merged exactly where they agree on every value; merged,
/// they have what either of them chose, and the lists of both.
pub proof fn layers_agree_value_by_value(baseline: ConfigModel, repo: ConfigModel)
    ensures
        ({
            let d = default_config();
            let m = merged(baseline, repo);
            let (b, r) = (baseline, repo);
            &&& merge_conflict(b, r, None, None) is None <==> {
                &&& agree(
                    b.search.top_files_default,
                    r.search.top_files_default,
                    d.search.top_files_default,
                )
                &&& agree(
                    b.search.chunks_per_file_default,
                    r.search.chunks_per_file_default,
                    d.search.chunks_per_file_default,
                )
                &&& agree(b.model, r.model, d.model)
                &&& agree(b.cache_dir, r.cache_dir, d.cache_dir)
                &&& agree(b.watch.debounce_ms, r.watch.debounce_ms, d.watch.debounce_ms)
                &&& agree(
                    b.watch.failure_reminder_secs,
                    r.watch.failure_reminder_secs,
                    d.watch.failure_reminder_secs,
                )
                &&& agree(b.ground_dir, r.ground_dir, d.ground_dir)
                &&& agree(
                    b.logging.max_file_bytes,
                    r.logging.max_file_bytes,
                    d.logging.max_file_bytes,
                )
                &&& agree(
                    b.logging.max_total_bytes,
                    r.logging.max_total_bytes,
                    d.logging.max_total_bytes,
                )
            }
            &&& merge_conflict(b, r, None, None) is None ==> {
                &&& m.corpora == b.corpora + r.corpora
                &&& m.repositories == b.repositories + r.repositories
                &&& m.search.top_files_default == choice(
                    b.search.top_files_default,
                    r.search.top_files_default,
                    d.search.top_files_default,
                )
                &&& m.search.chunks_per_file_default == choice(
                    b.search.chunks_per_file_default,
                    r.search.chunks_per_file_default,
                    d.search.chunks_per_file_default,
                )
                &&& m.embeddings_enabled == choice(
                    b.embeddings_enabled,
                    r.embeddings_enabled,
                    d.embeddings_enabled,
                )
                &&& m.model == choice(b.model, r.model, d.model)
                &&& m.quantized == choice(b.quantized, r.quantized, d.quantized)
                &&& m.cache_dir == choice(b.cache_dir, r.cache_dir, d.cache_dir)
                &&& m.watch.debounce_ms == choice(
                    b.watch.debounce_ms,
                    r.watch.debounce_ms,
                    d.watch.debounce_ms,
                )
                &&& m.watch.failure_reminder_secs == choice(
                    b.watch.failure_reminder_secs,
                    r.watch.failure_reminder_secs,
                    d.watch.failure_reminder_secs,
                )
                &&& m.ground_dir == choice(b.ground_dir, r.ground_dir, d.ground_dir)
                &&& m.logging.max_file_bytes == choice(
                    b.logging.max_file_bytes,
                    r.logging.max_file_bytes,
                    d.logging.max_file_bytes,
                )
                &&& m.logging.max_total_bytes == choice(
                    b.logging.max_total_bytes,
                    r.logging.max_total_bytes,
                    d.logging.max_total_bytes,
                )
            }
        }),
{
}

/// Whether the message names the value and says what each layer chose, and
/// where.
pub open spec fn tells(
    message: Seq<char>,
    field: Seq<char>,
    baseline: Seq<char>,
    repo: Seq<char>,
    baseline_path: Seq<char>,
    repo_path: Seq<char>,
) -> bool {
    message == "scalar conflict on "@ + field + ": baseline = "@ + baseline + (" (baseline at "@
        + baseline_path + ")"@) + ", repo = "@ + repo + (" (repo at "@ + repo_path + ")"@)
}

/// Where the layers disagree, the message names a value on which they do, with
/// what each of them chose and the file that it chose it in.
pub proof fn conflicts_name_the_value_and_both_choices(
    baseline: ConfigModel,
    repo: ConfigModel,
    at: Seq<char>,
    below: Seq<char>,
)
    requires
        merge_conflict(baseline, repo, Some(at), Some(below)) is Some,
    ensures
        ({
            let message = merge_conflict(baseline, repo, Some(at), Some(below))->0;
            let d = default_config();
            let (b, r) = (baseline, repo);
            ||| !agree(
                b.search.top_files_default,
                r.search.top_files_default,
                d.search.top_files_default,
            ) && tells(
                message,
                "search.top_files_default"@,
                decimal(b.search.top_files_default as nat),
                decimal(r.search.top_files_default as nat),
                at,
                below,
            )
            ||| !agree(
                b.search.chunks_per_file_default,
                r.search.chunks_per_file_default,
                d.search.chunks_per_file_default,
            ) && tells(
                message,
                "search.chunks_per_file_default"@,
                decimal(b.search.chunks_per_file_default as nat),
                decimal(r.search.chunks_per_file_default as nat),
                at,
                below,
            )
            ||| !agree(b.model, r.model, d.model) && tells(
                message,
                "embeddings.model"@,
                debug_text(b.model),
                debug_text(r.model),
                at,
                below,
            )
            ||| !agree(b.cache_dir, r.cache_dir, d.cache_dir) && tells(
                message,
                "embeddings.cache_dir"@,
                debug_text(b.cache_dir),
                debug_text(r.cache_dir),
                at,
                below,
            )
            ||| !agree(b.watch.debounce_ms, r.watch.debounce_ms, d.watch.debounce_ms) && tells(
                message,
                "watch.debounce_ms"@,
                decimal(b.watch.debounce_ms as nat),
                decimal(r.watch.debounce_ms as nat),
                at,
                below,
            )
            ||| !agree(
                b.watch.failure_reminder_secs,
                r.watch.failure_reminder_secs,
                d.watch.failure_reminder_secs,
            ) && tells(
                message,
                "watch.failure_reminder_secs"@,
                decimal(b.watch.failure_reminder_secs as nat),
                decimal(r.watch.failure_reminder_secs as nat),
                at,
                below,
            )
            ||| !agree(b.ground_dir, r.ground_dir, d.ground_dir) && tells(
                message,
                "storage.ground_dir"@,
                debug_text(b.ground_dir),
                debug_text(r.ground_dir),
                at,
                below,
            )
            ||| !agree(
                b.logging.max_file_bytes,
                r.logging.max_file_bytes,
                d.logging.max_file_bytes,
            ) && tells(
                message,
                "logging.max_file_bytes"@,
                decimal(b.logging.max_file_bytes as nat),
                decimal(r.logging.max_file_bytes as nat),
                at,
                below,
            )
            ||| !agree(
                b.logging.max_total_bytes,
                r.logging.max_total_bytes,
                d.logging.max_total_bytes,
            ) && tells(
                message,
                "logging.max_total_bytes"@,
                decimal(b.logging.max_total_bytes as nat),
                decimal(r.logging.max_total_bytes as nat),
                at,
                below,
            )
        }),
{
}

/// The search for a layer ends with the file in the first directory that holds
/// one, unless the root of a repository comes before it.
pub proof fn the_nearest_layer_is_found(
    cwd: Seq<char>,
    levels: Seq<Level>,
    i: int,
    out: Discovery,
)
    requires
        0 <= i <= levels.len(),
        forall|j: int| 0 <= j < i ==> !(#[trigger] levels[j]).has_config && !levels[j].has_git,
        i < levels.len() ==> levels[i].has_config || levels[i].has_git,
        discovered(cwd, levels, out),
    ensures
        i < levels.len() && levels[i].has_config && levels[i].dir@.len() > 0 && levels[i].dir@.last()
            != '/' ==> (out matches Discovery::Found(path) && path@ == levels[i].dir@
            + "/.hallouminate/config.toml"@),
        i < levels.len() && !levels[i].has_config ==> (out matches Discovery::NoConfigInRepo(m)
            && m@ == "no .hallouminate/config.toml found walking up from "@ + cwd
            + " (stopped at repo root "@ + levels[i].dir@ + ")"@),
        i == levels.len() ==> (out matches Discovery::AboveAllRepos(m) && m@
            == "no .hallouminate/config.toml found walking up from "@ + cwd
            + " (reached filesystem root without hitting a .git boundary)"@),
{
    discovery_takes_the_nearest(levels);
    if let Some(k) = first_stop(levels, 0) {
        assert(levels[k].has_config || levels[k].has_git);
        assert(k == i);
        let dir = levels[i].dir@;
        if dir.len() > 0 && dir.last() != '/' {
            reveal_strlit(".hallouminate");
            reveal_strlit("config.toml");
            reveal_strlit("/.hallouminate/config.toml");
            assert(config_path_at(dir) =~= dir + "/.hallouminate/config.toml"@);
        }
    } else if i < levels.len() {
        assert(!levels[i].has_config);
    }
}

/// Inside a repository whose layer is in order and agrees with the baseline, a
/// request sees the corpora and the repositories of the baseline and then those
/// of the layer, and is told of both files.
pub proof fn inside_a_repository_both_layers_are_seen(
    baseline: ConfigModel,
    path: Seq<char>,
    layer: ConfigModel,
    root: Seq<char>,
    xdg_path: Option<Seq<char>>,
    out: Outcome<(Config, ResolvedLayers)>,
)
    requires
        layer_root(path) == Some(root),
        resolved_inside(baseline, path, Ok(layer), xdg_path, out),
        out is Ok,
    ensures
        ({
            let (cfg, layers) = out->Ok_0;
            let seen = resolved_config(layer, root);
            &&& cfg@.corpora == baseline.corpora + seen.corpora
            &&& cfg@.repositories == baseline.repositories + seen.repositories
            &&& opt_view(layers.repo_path) == Some(path)
            &&& opt_view(layers.xdg_path) == xdg_path
            &&& layers.warnings@.len() == 0
            &&& config_fault(cfg@) is None
        }),
{
}

} // verus!
