//! The commands that look after the configuration.

use vstd::prelude::*;
use vstd::string::StringExecFns;

use crate::config::{Config, ConfigModel};
use crate::corpus::{
    all_corpora, corpora_fault, corpus_models, repository_models, CorpusModel, RepositoryModel,
};
use crate::error::HallouminateError;
use crate::path::{parent, parent_of};
use crate::text::{
    cat2, cat3, cat4, cat5, chars_of, decimal, decimal_text, flat, join_list, join_with,
    opt_str_view, opt_view, owned, same, views,
};
use crate::xdg::{config_file_below, is_base, xdg_config_path_from, CONFIG_FALLBACK_BASE};

verus! {

/// What the command that writes a first configuration was asked.
#[derive(Debug, Default)]
pub struct ConfigInitArgs {
    pub force: bool,
    pub path: Option<String>,
}

/// What the command that shows the configuration was asked.
#[derive(Debug, Default)]
pub struct ConfigShowArgs {
    pub config: Option<String>,
    pub cwd: Option<String>,
}

/// What the command that fetches the models was asked.
#[derive(Debug, Default)]
pub struct ConfigDownloadArgs {
    pub config: Option<String>,
}

/// What the command that checks the configuration was asked.
#[derive(Debug, Default)]
pub struct ConfigValidateArgs {
    pub config: Option<String>,
    pub cwd: Option<String>,
}

/// Whether the key may stand at the top of a configuration.
pub open spec fn is_known_key(key: Seq<char>) -> bool {
    ||| key == "corpus"@
    ||| key == "repository"@
    ||| key == "search"@
    ||| key == "embeddings"@
    ||| key == "watch"@
    ||| key == "storage"@
    ||| key == "logging"@
    ||| key == "daemon"@
}

/// What may have been meant by a key that is not known.
pub open spec fn key_hint(key: Seq<char>) -> Seq<char> {
    if key == "corpora"@ {
        " (did you mean `[[corpus]]`?)"@
    } else if key == "code_repo"@ || key == "code_repos"@ {
        " (renamed to `[[repository]]`)"@
    } else if key == "repositories"@ {
        " (did you mean `[[repository]]`?)"@
    } else {
        Seq::empty()
    }
}

/// The warning about a key that is not known.
pub open spec fn key_warning(key: Seq<char>) -> Seq<char> {
    "unknown top-level key `"@ + key + "`"@ + key_hint(key)
}

/// The warnings about the keys that are not known.
pub open spec fn key_warnings(keys: Seq<Seq<char>>) -> Seq<Seq<char>>
    decreases keys.len(),
{
    if keys.len() == 0 {
        Seq::empty()
    } else if is_known_key(keys.last()) {
        key_warnings(keys.drop_last())
    } else {
        key_warnings(keys.drop_last()).push(key_warning(keys.last()))
    }
}

/// The warning where there is nothing to search.
pub const NO_CORPORA_WARNING: &'static str =
    "no corpora configured — `ground`, `index`, and `add_markdown` will all error until you add at least one `[[corpus]]` or `[[repository]]` entry";

/// What a TOML text holds: the keys at its top, none of them where it is no
/// table, or what is wrong with it.
pub uninterp spec fn toml_top(text: Seq<char>) -> Result<Option<Seq<Seq<char>>>, Seq<char>>;

/// The model of what a TOML text holds.
pub open spec fn top_model(top: Result<Option<Vec<String>>, String>) -> Result<
    Option<Seq<Seq<char>>>,
    Seq<char>,
> {
    match top {
        Ok(Some(keys)) => Ok(Some(views(keys@))),
        Ok(None) => Ok(None),
        Err(detail) => Err(detail@),
    }
}

/// `toml::from_str` on a `toml::Value`: the keys of the table that the text
/// holds, in the order of the table, or the words of the error.  The contract
/// names the result without saying what TOML is; it depends on the text alone.
#[verifier::external_body]
fn toml_keys(text: &str) -> (out: Result<Option<Vec<String>>, String>)
    ensures
        top_model(out) == toml_top(text@),
{
    match toml::from_str::<toml::Value>(text) {
        Ok(toml::Value::Table(table)) => Ok(Some(table.keys().cloned().collect())),
        Ok(_) => Ok(None),
        Err(e) => Err(e.to_string()),
    }
}

/// The warnings about what is written at the top of a configuration.
pub open spec fn top_warnings(top: Result<Option<Seq<Seq<char>>>, Seq<char>>) -> Seq<Seq<char>> {
    match top {
        Ok(Some(keys)) => key_warnings(keys),
        Ok(None) => seq!["config is not a TOML table"@],
        Err(detail) => seq!["re-parse for key check failed: "@ + detail],
    }
}

/// Whether there is nothing to search.
pub open spec fn has_no_corpora(cfg: ConfigModel) -> bool {
    corpora_fault(cfg.corpora, cfg.repositories) is Some || all_corpora(
        cfg.corpora,
        cfg.repositories,
    ).len() == 0
}

/// All warnings: about what is written at the top, and that there is nothing to
/// search.
pub open spec fn all_warnings(
    top: Option<Result<Option<Seq<Seq<char>>>, Seq<char>>>,
    cfg: ConfigModel,
) -> Seq<Seq<char>> {
    let first = match top {
        Some(t) => top_warnings(t),
        None => Seq::empty(),
    };
    if has_no_corpora(cfg) {
        first.push(NO_CORPORA_WARNING@)
    } else {
        first
    }
}

fn known_key(key: &str) -> (out: bool)
    ensures
        out == is_known_key(key@),
{
    same(key, "corpus") || same(key, "repository") || same(key, "search") || same(
        key,
        "embeddings",
    ) || same(key, "watch") || same(key, "storage") || same(key, "logging")
        || same(key, "daemon")
}

fn hint_for(key: &str) -> (out: String)
    ensures
        out@ == key_hint(key@),
{
    if same(key, "corpora") {
        owned(" (did you mean `[[corpus]]`?)")
    } else if same(key, "code_repo") || same(key, "code_repos") {
        owned(" (renamed to `[[repository]]`)")
    } else if same(key, "repositories") {
        owned(" (did you mean `[[repository]]`?)")
    } else {
        String::new()
    }
}

/// The model of what a configuration file holds at its top, if there is one.
pub open spec fn opt_top_model(top: Option<Result<Option<Vec<String>>, String>>) -> Option<
    Result<Option<Seq<Seq<char>>>, Seq<char>>,
> {
    match top {
        Some(t) => Some(top_model(t)),
        None => None,
    }
}

/// The warnings about a configuration, from what its file holds at its top.
pub fn warnings_for(top: Option<Result<Option<Vec<String>>, String>>, cfg: &Config) -> (out: Vec<
    String,
>)
    ensures
        views(out@) == all_warnings(opt_top_model(top), cfg@),
{
    let mut out: Vec<String> = Vec::new();
    let ghost first = match opt_top_model(top) {
        Some(t) => top_warnings(t),
        None => Seq::empty(),
    };
    proof {
        assert(views(out@) =~= Seq::<Seq<char>>::empty());
    }
    match top {
        Some(held) => match held {
            Ok(Some(keys)) => {
                let ghost all = views(keys@);
                proof {
                    assert(all.take(0) =~= Seq::<Seq<char>>::empty());
                }
                for i in 0..keys.len()
                    invariant
                        all == views(keys@),
                        views(out@) == key_warnings(all.take(i as int)),
                {
                    let ghost before = views(out@);
                    proof {
                        assert(all.take(i + 1).drop_last() =~= all.take(i as int));
                        assert(all.take(i + 1).last() == keys@[i as int]@);
                    }
                    let key = keys[i].as_str();
                    if !known_key(key) {
                        let hint = hint_for(key);
                        out.push(cat4("unknown top-level key `", key, "`", hint.as_str()));
                        proof {
                            assert(views(out@) =~= before.push(key_warning(key@)));
                        }
                    }
                }
                proof {
                    assert(all.take(all.len() as int) =~= all);
                }
            },
            Ok(None) => {
                out.push(owned("config is not a TOML table"));
                proof {
                    assert(views(out@) =~= first);
                }
            },
            Err(detail) => {
                out.push(cat2("re-parse for key check failed: ", detail.as_str()));
                proof {
                    assert(views(out@) =~= first);
                }
            },
        },
        None => {},
    }
    let empty = match cfg.effective_corpora() {
        Ok(list) => {
            proof {
                assert(corpus_models(list@).len() == list@.len());
            }
            list.len() == 0
        },
        Err(_) => true,
    };
    if empty {
        let ghost before = views(out@);
        out.push(owned(NO_CORPORA_WARNING));
        proof {
            assert(views(out@) =~= before.push(NO_CORPORA_WARNING@));
        }
    }
    out
}

/// The warnings about a configuration and the text of its file, where there is
/// one: keys that are not known, and that there is nothing to search.
pub fn collect_warnings(raw: Option<&str>, cfg: &Config) -> (out: Vec<String>)
    ensures
        views(out@) == all_warnings(
            match raw {
                Some(text) => Some(toml_top(text@)),
                None => None,
            },
            cfg@,
        ),
{
    match raw {
        Some(text) => {
            let top = toml_keys(text);
            warnings_for(Some(top), cfg)
        },
        None => warnings_for(None, cfg),
    }
}

/// Only known keys at the top, and something to search: no warnings.
pub proof fn clean_configuration_has_no_warnings(keys: Seq<Seq<char>>, cfg: ConfigModel)
    requires
        forall|i: int| 0 <= i < keys.len() ==> is_known_key(#[trigger] keys[i]),
        !has_no_corpora(cfg),
    ensures
        all_warnings(Some(Ok(Some(keys))), cfg).len() == 0,
{
    known_keys_give_no_warning(keys);
}

proof fn known_keys_give_no_warning(keys: Seq<Seq<char>>)
    requires
        forall|i: int| 0 <= i < keys.len() ==> is_known_key(#[trigger] keys[i]),
    ensures
        key_warnings(keys).len() == 0,
    decreases keys.len(),
{
    if keys.len() > 0 {
        let front = keys.drop_last();
        assert forall|i: int| 0 <= i < front.len() implies is_known_key(#[trigger] front[i]) by {
            assert(is_known_key(keys[i]));
        }
        known_keys_give_no_warning(front);
        assert(is_known_key(keys[keys.len() - 1]));
    }
}

/// How a check of the configuration ends: the error where there are warnings.
pub fn validate_verdict(warnings: &Vec<String>) -> (out: Result<(), String>)
    ensures
        warnings@.len() == 0 ==> out is Ok,
        warnings@.len() > 0 ==> (out matches Err(m) && m@ == decimal(warnings@.len())
            + " warning(s); see above"@),
{
    if warnings.len() == 0 {
        Ok(())
    } else {
        Err(cat2(decimal_text(warnings.len() as u64).as_str(), " warning(s); see above"))
    }
}

/// How the file of the baseline was chosen.
#[derive(Debug, Clone, Copy, PartialEq, Eq, Structural)]
pub enum BaselineOrigin {
    /// It is where configurations are kept.
    Xdg,
    /// It was named.
    ConfigFlag,
}

/// The file of the baseline.
#[derive(Debug)]
pub struct BaselineSource {
    pub path: String,
    pub origin: BaselineOrigin,
}

/// The file of the baseline: the one that was named, or the one where
/// configurations are kept.
pub fn baseline_source_path(arg_config: Option<&str>, xdg_config_home: Option<&str>) -> (out:
    BaselineSource)
    ensures
        match arg_config {
            Some(path) => out.origin == BaselineOrigin::ConfigFlag && out.path@ == path@,
            None => out.origin == BaselineOrigin::Xdg && exists|base: Seq<char>|
                is_base(opt_str_view(xdg_config_home), CONFIG_FALLBACK_BASE@, base) && out.path@
                    == #[trigger] config_file_below(base),
        },
{
    match arg_config {
        Some(path) => BaselineSource { path: owned(path), origin: BaselineOrigin::ConfigFlag },
        None => BaselineSource {
            path: xdg_config_path_from(xdg_config_home),
            origin: BaselineOrigin::Xdg,
        },
    }
}

/// The line about the file of the baseline.
pub open spec fn baseline_line(path: Seq<char>, is_file: bool, origin: BaselineOrigin) -> Seq<
    char,
> {
    "baseline: "@ + path + " ("@ + (if is_file {
        "loaded"@
    } else {
        "not found"@
    }) + ", from "@ + (match origin {
        BaselineOrigin::Xdg => "XDG"@,
        BaselineOrigin::ConfigFlag => "--config"@,
    }) + ")\n"@
}

fn baseline_text(baseline: &BaselineSource, is_file: bool) -> (out: String)
    ensures
        out@ == baseline_line(baseline.path@, is_file, baseline.origin),
{
    let mut out = cat3("baseline: ", baseline.path.as_str(), " (");
    out.append(
        if is_file {
            "loaded"
        } else {
            "not found"
        },
    );
    out.append(", from ");
    match baseline.origin {
        BaselineOrigin::Xdg => {
            out.append("XDG");
        },
        BaselineOrigin::ConfigFlag => {
            out.append("--config");
        },
    }
    out.append(")\n");
    out
}

/// What a message says of why the repository's layer was not found.
pub open spec fn layer_detail(underlying: HallouminateError) -> Seq<char> {
    underlying.shown()
}

/// The message where the repository around the working directory has no layer:
/// which baseline was used, where the layer was looked for, and what is needed.
pub fn format_no_repo_error(
    baseline: &BaselineSource,
    baseline_is_file: bool,
    cwd: &str,
    underlying: &HallouminateError,
) -> (out: String)
    ensures
        out@ == baseline_line(baseline.path@, baseline_is_file, baseline.origin)
            + "repo: not found ("@ + layer_detail(*underlying) + ")\n"@
            + "error: hallouminate requires a .hallouminate/config.toml in the working directory's repo (cwd: "@
            + cwd@ + ")"@,
{
    let mut out = baseline_text(baseline, baseline_is_file);
    out.append("repo: not found (");
    out.append(underlying.message().as_str());
    out.append(")\n");
    out.append(
        "error: hallouminate requires a .hallouminate/config.toml in the working directory's repo (cwd: ",
    );
    out.append(cwd);
    out.append(")");
    out
}

/// What is said of the two layers of a configuration before it is shown.
pub fn layered_header(
    baseline: &BaselineSource,
    baseline_is_file: bool,
    repo_path: Option<&str>,
) -> (out: String)
    ensures
        out@ == baseline_line(baseline.path@, baseline_is_file, baseline.origin) + (
        match opt_str_view(repo_path) {
            Some(path) => "repo: "@ + path + " (loaded)\n"@,
            None => "repo: none (above all repositories)\n"@,
        }),
{
    let mut out = baseline_text(baseline, baseline_is_file);
    let line = match repo_path {
        Some(path) => cat3("repo: ", path, " (loaded)\n"),
        None => owned("repo: none (above all repositories)\n"),
    };
    out.append(line.as_str());
    out
}

/// The text with spaces behind it, so that it is at least `width` long.
pub open spec fn padded_right(s: Seq<char>, width: nat) -> Seq<char>
    decreases width - s.len(),
{
    if s.len() >= width {
        s
    } else {
        padded_right(s.push(' '), width)
    }
}

fn pad_right(s: &str, width: usize) -> (out: String)
    ensures
        out@ == padded_right(s@, width as nat),
{
    let mut out = owned(s);
    let mut len: usize = chars_of(s).len();
    while len < width
        invariant
            len == out@.len(),
            padded_right(out@, width as nat) == padded_right(s@, width as nat),
        decreases width - len,
    {
        out.push(' ');
        len = len + 1;
    }
    out
}

/// The line about something that has a name and a place.
pub open spec fn summary_line(name: Seq<char>, place: Seq<char>) -> Seq<char> {
    "  - "@ + padded_right(name, 22) + " → "@ + place + "\n"@
}

/// The lines about the first `n` corpora.
pub open spec fn corpus_lines(corpora: Seq<CorpusModel>, n: int) -> Seq<char>
    decreases n,
{
    if n <= 0 {
        Seq::empty()
    } else {
        corpus_lines(corpora, n - 1) + summary_line(
            corpora[n - 1].name,
            join_with(corpora[n - 1].paths, ", "@),
        )
    }
}

/// The lines about the first `n` repositories.
pub open spec fn repository_lines(repos: Seq<RepositoryModel>, n: int) -> Seq<char>
    decreases n,
{
    if n <= 0 {
        Seq::empty()
    } else {
        repository_lines(repos, n - 1) + summary_line(repos[n - 1].name, repos[n - 1].path)
    }
}

/// What is said of the corpora and the repositories of a configuration.
pub open spec fn summary_text(all: Seq<CorpusModel>, repos: Seq<RepositoryModel>) -> Seq<char> {
    "\nEffective corpora ("@ + decimal(all.len()) + "):\n"@ + corpus_lines(all, all.len() as int)
        + "\nEffective repositories ("@ + decimal(repos.len()) + "):\n"@ + repository_lines(
        repos,
        repos.len() as int,
    )
}

fn summary_row(name: &str, place: &str) -> (out: String)
    ensures
        out@ == summary_line(name@, place@),
{
    cat5("  - ", pad_right(name, 22).as_str(), " → ", place, "\n")
}

/// What is said of the corpora and the repositories of a configuration.
pub fn effective_summary(cfg: &Config) -> (out: Result<String, String>)
    ensures
        match corpora_fault(cfg@.corpora, cfg@.repositories) {
            Some(fault) => out matches Err(m) && m@ == "derive effective corpora: "@ + fault,
            None => out matches Ok(text) && text@ == summary_text(
                all_corpora(cfg@.corpora, cfg@.repositories),
                cfg@.repositories,
            ),
        },
{
    let effective = match cfg.effective_corpora() {
        Ok(list) => list,
        Err(e) => {
            return Err(cat2("derive effective corpora: ", e.message().as_str()));
        },
    };
    let ghost all = corpus_models(effective@);
    let ghost repos = repository_models(cfg.repositories@);
    let mut out = cat3(
        "\nEffective corpora (",
        decimal_text(effective.len() as u64).as_str(),
        "):\n",
    );
    let ghost head = out@;
    proof {
        assert(head + corpus_lines(all, 0) =~= head);
    }
    for i in 0..effective.len()
        invariant
            all == corpus_models(effective@),
            out@ == head + corpus_lines(all, i as int),
    {
        let row = summary_row(
            effective[i].name.as_str(),
            join_list(&effective[i].paths, ", ").as_str(),
        );
        out.append(row.as_str());
        proof {
            assert(all[i as int] == effective@[i as int]@);
            assert(out@ =~= head + corpus_lines(all, i + 1));
        }
    }
    out.append("\nEffective repositories (");
    out.append(decimal_text(cfg.repositories.len() as u64).as_str());
    out.append("):\n");
    let ghost middle = out@;
    proof {
        assert(middle + repository_lines(repos, 0) =~= middle);
    }
    for i in 0..cfg.repositories.len()
        invariant
            repos == repository_models(cfg.repositories@),
            out@ == middle + repository_lines(repos, i as int),
    {
        let row = summary_row(
            cfg.repositories[i].name.as_str(),
            cfg.repositories[i].path.as_str(),
        );
        out.append(row.as_str());
        proof {
            assert(repos[i as int] == cfg.repositories@[i as int]@);
            assert(out@ =~= middle + repository_lines(repos, i + 1));
        }
    }
    Ok(out)
}

/// What has to be made before a first configuration is written: the directory
/// that holds it, unless that is the directory of the process.
pub fn plan_config_init(target: &str, present: bool, force: bool) -> (out: Result<
    Option<String>,
    String,
>)
    ensures
        present && !force ==> (out matches Err(m) && m@ == "config already exists at "@ + target@
            + "; pass --force to overwrite"@),
        !present || force ==> (out matches Ok(dir) && opt_view(dir) == (match parent(target@) {
            Some(d) => if d.len() > 0 {
                Some(d)
            } else {
                None
            },
            None => None,
        })),
{
    if present && !force {
        return Err(cat3("config already exists at ", target, "; pass --force to overwrite"));
    }
    match parent_of(target) {
        Some(dir) => if dir.as_str().is_empty() {
            Ok(None)
        } else {
            Ok(Some(dir))
        },
        None => Ok(None),
    }
}

/// What is said when the models were fetched.
pub fn download_summary(model: &str, embeddings_enabled: bool) -> (out: String)
    ensures
        out@ == if embeddings_enabled {
            "downloaded model + tokenizer for "@ + model@
        } else {
            "embeddings disabled; downloaded tokenizer only for "@ + model@
                + " (set embeddings.enabled = true to fetch the model)"@
        },
{
    if embeddings_enabled {
        cat2("downloaded model + tokenizer for ", model)
    } else {
        cat3(
            "embeddings disabled; downloaded tokenizer only for ",
            model,
            " (set embeddings.enabled = true to fetch the model)",
        )
    }
}

/// Every key that is not known is warned of, in the order of the keys, and no
/// other; the warning names the key.
pub proof fn every_unknown_key_is_warned_of(keys: Seq<Seq<char>>)
    ensures
        key_warnings(keys) == keys.filter(|key: Seq<char>| !is_known_key(key)).map_values(
            |key: Seq<char>| "unknown top-level key `"@ + key + "`"@ + key_hint(key),
        ),
    decreases keys.len(),
{
    reveal(Seq::filter);
    let unknown = |key: Seq<char>| !is_known_key(key);
    let warning = |key: Seq<char>| "unknown top-level key `"@ + key + "`"@ + key_hint(key);
    if keys.len() > 0 {
        every_unknown_key_is_warned_of(keys.drop_last());
        let before = keys.drop_last().filter(unknown).map_values(warning);
        let now = keys.filter(unknown).map_values(warning);
        if unknown(keys.last()) {
            assert(now =~= before.push(warning(keys.last())));
        } else {
            assert(now =~= before);
        }
    } else {
        assert(keys.filter(unknown).map_values(warning) =~= Seq::<Seq<char>>::empty());
    }
}

/// That there is nothing to search is warned of last, where it is so, and only
/// there; what is written at the top is warned of before it.
pub proof fn nothing_to_search_is_warned_of(
    top: Option<Result<Option<Seq<Seq<char>>>, Seq<char>>>,
    cfg: ConfigModel,
)
    requires
        corpora_fault(cfg.corpora, cfg.repositories) is None,
    ensures
        cfg.corpora.len() == 0 && cfg.repositories.len() == 0 ==> {
            &&& all_warnings(top, cfg).len() > 0
            &&& all_warnings(top, cfg).last() == NO_CORPORA_WARNING@
            &&& all_warnings(None, cfg) == seq![NO_CORPORA_WARNING@]
        },
        cfg.corpora.len() > 0 || cfg.repositories.len() > 0 ==> {
            &&& all_warnings(None, cfg).len() == 0
            &&& top matches Some(Ok(Some(keys))) ==> all_warnings(top, cfg) == key_warnings(keys)
            &&& top matches Some(Ok(None)) ==> all_warnings(top, cfg) == seq![
                "config is not a TOML table"@,
            ]
            &&& top matches Some(Err(detail)) ==> all_warnings(top, cfg) == seq![
                "re-parse for key check failed: "@ + detail,
            ]
        },
{
    let all = all_corpora(cfg.corpora, cfg.repositories);
    if cfg.repositories.len() > 0 {
        crate::corpus::every_repository_has_its_wiki(cfg.corpora, cfg.repositories, 0);
        assert(all.len() > 0);
    } else {
        assert(cfg.repositories =~= Seq::<RepositoryModel>::empty());
        assert(all =~= cfg.corpora);
    }
}

proof fn filled_up_with_blanks(s: Seq<char>, width: nat)
    ensures
        padded_right(s, width) == s + Seq::new(
            if s.len() < width {
                (width - s.len()) as nat
            } else {
                0
            },
            |i: int| ' ',
        ),
    decreases width - s.len(),
{
    if s.len() >= width {
        assert(s + Seq::new(0, |i: int| ' ') =~= s);
    } else {
        filled_up_with_blanks(s.push(' '), width);
        assert(s.push(' ') + Seq::new((width - s.len() - 1) as nat, |i: int| ' ') =~= s + Seq::new(
            (width - s.len()) as nat,
            |i: int| ' ',
        ));
    }
}

/// A line of the summary shows a name, in a column of at least twenty-two, and
/// then its place.
pub proof fn summaries_show_names_and_places(name: Seq<char>, place: Seq<char>)
    ensures
        summary_line(name, place) == "  - "@ + (name + Seq::new(
            if name.len() < 22 {
                (22 - name.len()) as nat
            } else {
                0
            },
            |i: int| ' ',
        )) + " → "@ + place + "\n"@,
{
    filled_up_with_blanks(name, 22);
}

proof fn corpora_have_their_lines(corpora: Seq<CorpusModel>, n: int)
    requires
        0 <= n <= corpora.len(),
    ensures
        corpus_lines(corpora, n) == flat(
            Seq::new(
                n as nat,
                |i: int| summary_line(corpora[i].name, join_with(corpora[i].paths, ", "@)),
            ),
        ),
    decreases n,
{
    let line = |i: int| summary_line(corpora[i].name, join_with(corpora[i].paths, ", "@));
    if n > 0 {
        corpora_have_their_lines(corpora, n - 1);
        let all = Seq::new(n as nat, line);
        assert(all.drop_last() =~= Seq::new((n - 1) as nat, line));
        assert(all.last() == line(n - 1));
    }
}

proof fn repositories_have_their_lines(repos: Seq<RepositoryModel>, n: int)
    requires
        0 <= n <= repos.len(),
    ensures
        repository_lines(repos, n) == flat(
            Seq::new(n as nat, |i: int| summary_line(repos[i].name, repos[i].path)),
        ),
    decreases n,
{
    let line = |i: int| summary_line(repos[i].name, repos[i].path);
    if n > 0 {
        repositories_have_their_lines(repos, n - 1);
        let all = Seq::new(n as nat, line);
        assert(all.drop_last() =~= Seq::new((n - 1) as nat, line));
        assert(all.last() == line(n - 1));
    }
}

/// The summary counts the corpora and the repositories, and has a line for each
/// of them, in their order.
pub proof fn summaries_list_everything(all: Seq<CorpusModel>, repos: Seq<RepositoryModel>)
    ensures
        summary_text(all, repos) == "\nEffective corpora ("@ + decimal(all.len()) + "):\n"@ + flat(
            Seq::new(
                all.len(),
                |i: int| summary_line(all[i].name, join_with(all[i].paths, ", "@)),
            ),
        ) + "\nEffective repositories ("@ + decimal(repos.len()) + "):\n"@ + flat(
            Seq::new(repos.len(), |i: int| summary_line(repos[i].name, repos[i].path)),
        ),
{
    corpora_have_their_lines(all, all.len() as int);
    repositories_have_their_lines(repos, repos.len() as int);
}

/// The line about the baseline names its file, whether it was there, and how it
/// was chosen.
pub proof fn baselines_are_told(path: Seq<char>)
    ensures
        baseline_line(path, true, BaselineOrigin::Xdg) == "baseline: "@ + path
            + " (loaded, from XDG)\n"@,
        baseline_line(path, false, BaselineOrigin::Xdg) == "baseline: "@ + path
            + " (not found, from XDG)\n"@,
        baseline_line(path, true, BaselineOrigin::ConfigFlag) == "baseline: "@ + path
            + " (loaded, from --config)\n"@,
        baseline_line(path, false, BaselineOrigin::ConfigFlag) == "baseline: "@ + path
            + " (not found, from --config)\n"@,
{
    reveal_strlit(" (");
    reveal_strlit("loaded");
    reveal_strlit("not found");
    reveal_strlit(", from ");
    reveal_strlit("XDG");
    reveal_strlit("--config");
    reveal_strlit(")\n");
    reveal_strlit(" (loaded, from XDG)\n");
    reveal_strlit(" (not found, from XDG)\n");
    reveal_strlit(" (loaded, from --config)\n");
    reveal_strlit(" (not found, from --config)\n");
    assert(" (loaded, from XDG)\n"@ =~= " ("@ + "loaded"@ + ", from "@ + "XDG"@ + ")\n"@);
    assert(" (not found, from XDG)\n"@ =~= " ("@ + "not found"@ + ", from "@ + "XDG"@ + ")\n"@);
    assert(" (loaded, from --config)\n"@ =~= " ("@ + "loaded"@ + ", from "@ + "--config"@ + ")\n"@);
    assert(" (not found, from --config)\n"@ =~= " ("@ + "not found"@ + ", from "@ + "--config"@
        + ")\n"@);
    assert(baseline_line(path, true, BaselineOrigin::Xdg) =~= "baseline: "@ + path
        + " (loaded, from XDG)\n"@);
    assert(baseline_line(path, false, BaselineOrigin::Xdg) =~= "baseline: "@ + path
        + " (not found, from XDG)\n"@);
    assert(baseline_line(path, true, BaselineOrigin::ConfigFlag) =~= "baseline: "@ + path
        + " (loaded, from --config)\n"@);
    assert(baseline_line(path, false, BaselineOrigin::ConfigFlag) =~= "baseline: "@ + path
        + " (not found, from --config)\n"@);
}

/// A key that was known under another name, or that is the plural of one, is told
/// what it should be; another one is not.
pub proof fn hints_name_the_right_key(key: Seq<char>)
    ensures
        key_hint("corpora"@) == " (did you mean `[[corpus]]`?)"@,
        key_hint("repositories"@) == " (did you mean `[[repository]]`?)"@,
        key_hint("code_repo"@) == " (renamed to `[[repository]]`)"@,
        key_hint("code_repos"@) == " (renamed to `[[repository]]`)"@,
        key != "corpora"@ && key != "repositories"@ && key != "code_repo"@ && key != "code_repos"@
            ==> key_hint(key).len() == 0,
{
    reveal_strlit("corpora");
    reveal_strlit("repositories");
    reveal_strlit("code_repo");
    reveal_strlit("code_repos");
    assert("corpora"@.len() == 7);
    assert("repositories"@.len() == 12);
    assert("code_repo"@.len() == 9);
    assert("code_repos"@.len() == 10);
}

/// The keys that may stand at the top of a configuration are those of its
/// sections and of its lists.
pub proof fn sections_and_lists_are_known(key: Seq<char>)
    ensures
        is_known_key(key) <==> seq![
            "corpus"@,
            "repository"@,
            "search"@,
            "embeddings"@,
            "watch"@,
            "storage"@,
            "logging"@,
            "daemon"@,
        ].contains(key),
{
    let known = seq![
        "corpus"@,
        "repository"@,
        "search"@,
        "embeddings"@,
        "watch"@,
        "storage"@,
        "logging"@,
        "daemon"@,
    ];
    if is_known_key(key) {
        let i: int = if key == "corpus"@ {
            0
        } else if key == "repository"@ {
            1
        } else if key == "search"@ {
            2
        } else if key == "embeddings"@ {
            3
        } else if key == "watch"@ {
            4
        } else if key == "storage"@ {
            5
        } else if key == "logging"@ {
            6
        } else {
            7
        };
        assert(known[i] == key);
    }
}

} // verus!
