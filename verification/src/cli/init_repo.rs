//! The command that sets up a repository.

use vstd::prelude::*;
use vstd::string::StringExecFns;

use crate::config::{
    config_fault, default_config, defaults_are_usable, load_fault, normalized, resolved_config,
    resolved_repository, Config, ConfigModel, DEFAULT_EMBED_CACHE, DEFAULT_GROUND_DIR,
};
use crate::corpus::{
    all_corpora, all_derived, corpus_names, derived, every_repository_has_its_wiki, repo_corpus,
    repo_corpus_name, repo_name_fault, repo_names_fault, wiki_corpus, RepoCorpusKind,
    RepositoryModel, WIKI_RELATIVE_PATH,
};
use crate::error::Outcome;
use crate::layers::{
    layer_fault, layer_root, layer_root_is_where_it_was_found, merge_fault, merged, resolved_inside,
    ResolvedLayers,
};
use crate::path::{ends_in_name, join, joined, last_name, lead, parent, slash};
use crate::text::{cat3, cat4, debug_quote, debug_text, is_blank, opt_view, split};

verus! {

/// What the command was asked.
#[derive(Debug)]
pub struct InitRepoArgs {
    /// The name of the repository.
    pub name: String,
    /// Its root; the working directory where it is not given.
    pub path: Option<String>,
    /// Whether an existing configuration is replaced.
    pub force: bool,
}

/// The line after which an index page lists its files.
pub const INDEX_START_MARKER: &'static str = "<!-- HALLOUMINATE:INDEX-START -->";

/// The line before which the list ends.
pub const INDEX_END_MARKER: &'static str = "<!-- HALLOUMINATE:INDEX-END -->";

/// The TOML literal that stands for a text.
pub uninterp spec fn toml_literal(text: Seq<char>) -> Seq<char>;

/// The `Display` of `toml::Value::String`: the text as a TOML literal, quoted
/// and escaped as TOML wants it.  The contract names the literal without saying
/// how it is quoted; it depends on the text alone.
#[verifier::external_body]
fn toml_quote(text: &str) -> (out: String)
    ensures
        out@ == toml_literal(text@),
{
    toml::Value::String(text.to_owned()).to_string()
}

/// What the command writes.
#[derive(Debug)]
pub struct InitPlan {
    pub wiki_dir: String,
    pub config_path: String,
    pub config_body: String,
    pub index_path: String,
    /// The first index page of the wiki, where it has none yet.
    pub index_body: Option<String>,
    /// What the command says when it is done.
    pub summary: String,
}

/// Where the configuration of a repository is.
pub open spec fn repo_config_path(root: Seq<char>) -> Seq<char> {
    joined(joined(root, ".hallouminate"@), "config.toml"@)
}

/// The configuration of a repository that is set up; `literal` is its name as
/// TOML writes it.
pub open spec fn config_text(literal: Seq<char>) -> Seq<char> {
    "[[repository]]\nname = "@ + literal + "\npath = \".\"\n"@
}

/// The first index page of a wiki.
pub open spec fn index_text(name: Seq<char>) -> Seq<char> {
    "# "@ + name + " wiki\n\n"@ + INDEX_START_MARKER@ + "\n"@ + INDEX_END_MARKER@ + "\n"@
}

/// The configuration of a repository that is set up; `literal` is its name as
/// TOML writes it.
pub fn config_body(literal: &str) -> (out: String)
    ensures
        out@ == config_text(literal@),
{
    cat3("[[repository]]\nname = ", literal, "\npath = \".\"\n")
}

/// The first index page of a wiki.
pub fn index_body(name: &str) -> (out: String)
    ensures
        out@ == index_text(name@),
{
    let mut out = cat3("# ", name, " wiki\n\n");
    out.append(INDEX_START_MARKER);
    out.append("\n");
    out.append(INDEX_END_MARKER);
    out.append("\n");
    out
}

/// Whether the plan sets up the repository at `root`: it writes the
/// configuration, and the first page of the wiki where there is none.
pub open spec fn sets_up(
    plan: InitPlan,
    name: Seq<char>,
    root: Seq<char>,
    index_exists: bool,
) -> bool {
    &&& plan.config_path@ == repo_config_path(root)
    &&& plan.config_body@ == config_text(toml_literal(name))
    &&& plan.wiki_dir@ == joined(root, WIKI_RELATIVE_PATH@)
    &&& plan.index_path@ == joined(joined(root, WIKI_RELATIVE_PATH@), "index.md"@)
    &&& opt_view(plan.index_body) == (if index_exists {
        None
    } else {
        Some(index_text(name))
    })
    &&& plan.summary@ == "wrote "@ + repo_config_path(root) + "\nwiki skeleton at "@ + joined(
        root,
        WIKI_RELATIVE_PATH@,
    ) + " (corpus: repo:"@ + name + ":wiki)\n"@
}

/// What the command writes to set up the repository at `root`, or why it does
/// not.  The name must be one that a configuration can have; a configuration
/// that is there is replaced only on demand, and an index page never.
pub fn plan_init_repo(
    name: &str,
    root: &str,
    force: bool,
    config_exists: bool,
    index_exists: bool,
) -> (out: Result<InitPlan, String>)
    ensures
        match repo_name_fault(name@) {
            Some(fault) => out matches Err(message) && message@ == "invalid repository name "@
                + debug_text(name@) + ": "@ + fault,
            None => if config_exists && !force {
                out matches Err(message) && message@ == "repo config already exists at "@
                    + repo_config_path(root@) + "; pass --force to overwrite"@
            } else {
                out matches Ok(plan) && sets_up(plan, name@, root@, index_exists)
            },
        },
{
    match repo_corpus_name(name, RepoCorpusKind::Wiki) {
        Ok(_) => {},
        Err(e) => {
            return Err(
                cat4(
                    "invalid repository name ",
                    debug_quote(name).as_str(),
                    ": ",
                    e.message().as_str(),
                ),
            );
        },
    }
    let config_path = join(join(root, ".hallouminate").as_str(), "config.toml");
    if config_exists && !force {
        return Err(
            cat3(
                "repo config already exists at ",
                config_path.as_str(),
                "; pass --force to overwrite",
            ),
        );
    }
    let wiki_dir = join(root, WIKI_RELATIVE_PATH);
    let index_path = join(wiki_dir.as_str(), "index.md");
    let literal = toml_quote(name);
    let body = if index_exists {
        None
    } else {
        Some(index_body(name))
    };
    let mut summary = cat4(
        "wrote ",
        config_path.as_str(),
        "\nwiki skeleton at ",
        wiki_dir.as_str(),
    );
    summary.append(" (corpus: repo:");
    summary.append(name);
    summary.append(":wiki)\n");
    Ok(
        InitPlan {
            wiki_dir,
            config_path,
            config_body: config_body(literal.as_str()),
            index_path,
            index_body: body,
            summary,
        },
    )
}

/// What the files hold after the plan was carried out.
pub open spec fn carried_out(plan: InitPlan, files: Map<Seq<char>, Seq<char>>) -> Map<
    Seq<char>,
    Seq<char>,
> {
    let configured = files.insert(plan.config_path@, plan.config_body@);
    match plan.index_body {
        Some(body) => configured.insert(plan.index_path@, body@),
        None => configured,
    }
}

/// To set up a repository, forced or not, changes no file that is there but its
/// configuration: the index page of its wiki stays as it is.  Where the wiki had
/// none, it has one then.
pub proof fn setting_up_keeps_the_wiki(
    plan: InitPlan,
    name: Seq<char>,
    root: Seq<char>,
    files: Map<Seq<char>, Seq<char>>,
    path: Seq<char>,
)
    requires
        sets_up(plan, name, root, files.contains_key(plan.index_path@)),
    ensures
        plan.index_path@ != plan.config_path@,
        files.contains_key(path) && path != plan.config_path@ ==> carried_out(
            plan,
            files,
        ).contains_key(path) && carried_out(plan, files)[path] == files[path],
        !files.contains_key(plan.index_path@) ==> carried_out(plan, files)[plan.index_path@]
            == index_text(name),
        carried_out(plan, files)[plan.config_path@] == config_text(toml_literal(name)),
{
    reveal_strlit("config.toml");
    reveal_strlit("index.md");
    assert(plan.config_path@.last() == 'l');
    assert(plan.index_path@.last() == 'd');
}

/// What the configuration of a repository that is set up says: that there is a
/// repository of the name, at the root that the configuration is seen from.  The
/// decoder that reads the text as this is not part of the library.
pub open spec fn seeded(name: Seq<char>) -> ConfigModel {
    ConfigModel {
        repositories: seq![
            RepositoryModel { name, path: "."@, corpus_paths: Seq::empty() },
        ],
        ..default_config()
    }
}

/// The repository that is set up, as it is seen from `root`.
pub open spec fn seeded_repository(name: Seq<char>, root: Seq<char>) -> RepositoryModel {
    RepositoryModel { name, path: joined(root, "."@), corpus_paths: Seq::empty() }
}

proof fn config_path_has_a_parent(root: Seq<char>)
    ensures
        layer_root(repo_config_path(root)) is Some,
{
    reveal_strlit(".hallouminate");
    reveal_strlit("config.toml");
    let file = "config.toml"@;
    let dir = joined(root, ".hallouminate"@);
    let path = repo_config_path(root);
    assert(dir.last() == 'e');
    assert(path =~= dir + slash() + file);
    assert(!file.contains('/'));
    let n = lead(path);
    assert(path.skip(n) =~= dir.skip(n) + slash() + file);
    crate::text::split_of_added_piece(dir.skip(n), file, '/');
    let pieces = split(path.skip(n), '/');
    assert(pieces.last() == file);
    assert(last_name(pieces) == pieces.len() - 1);
    assert(parent(path) is Some);
}

proof fn seeded_seen_from(name: Seq<char>, root: Seq<char>)
    ensures
        resolved_config(seeded(name), root) == (ConfigModel {
            repositories: seq![seeded_repository(name, root)],
            ..default_config()
        }),
{
    reveal_strlit(".");
    reveal_strlit("~/.cache/hallouminate/fastembed");
    reveal_strlit("~/.local/share/hallouminate/ground");
    let here = resolved_config(seeded(name), root);
    let repo = seeded(name).repositories[0];
    assert(resolved_repository(repo, root) =~= seeded_repository(name, root));
    assert(here.repositories =~= seq![seeded_repository(name, root)]);
    assert(here.corpora =~= default_config().corpora);
    assert(DEFAULT_EMBED_CACHE@[0] == '~');
    assert(DEFAULT_GROUND_DIR@[0] == '~');
}

/// A usable configuration stays usable with one more repository, where neither
/// its name nor that of its wiki is at fault.
proof fn one_more_repository_is_usable(cfg: ConfigModel, repo: RepositoryModel)
    requires
        config_fault(cfg) is None,
        repo_name_fault(repo.name) is None,
        !is_blank(repo.path),
        repo.corpus_paths.len() == 0,
        !corpus_names(all_corpora(cfg.corpora, cfg.repositories)).contains(
            repo_corpus(repo.name, RepoCorpusKind::Wiki),
        ),
    ensures
        config_fault(ConfigModel { repositories: cfg.repositories.push(repo), ..cfg }) is None,
{
    let repos = cfg.repositories.push(repo);
    assert(repos.drop_last() =~= cfg.repositories);
    let before = all_corpora(cfg.corpora, cfg.repositories);
    let after = all_corpora(cfg.corpora, repos);
    assert(all_derived(repos) == all_derived(cfg.repositories) + derived(repo));
    assert(after =~= before.push(wiki_corpus(repo)));
    assert(corpus_names(after).drop_last() =~= corpus_names(before));
    assert(repo_names_fault(repos) is None);
}

/// The configuration that is written when a repository is set up is one that the
/// loader accepts: on its own, as the layer of the repository, and on top of any
/// usable baseline that has no corpus of the name of its wiki.  What a request
/// sees there has the wiki that was set up at the root, under its name.
pub proof fn seeded_configurations_are_accepted(
    name: Seq<char>,
    root: Seq<char>,
    baseline: ConfigModel,
    xdg_path: Option<Seq<char>>,
    out: Outcome<(Config, ResolvedLayers)>,
)
    requires
        repo_name_fault(name) is None,
        config_fault(baseline) is None,
        !corpus_names(all_corpora(baseline.corpora, baseline.repositories)).contains(
            repo_corpus(name, RepoCorpusKind::Wiki),
        ),
    ensures
        load_fault(seeded(name)) is None,
        layer_fault(repo_config_path(root), Ok(seeded(name))) is None,
        ({
            let path = repo_config_path(root);
            let base = layer_root(path)->0;
            let layer = normalized(resolved_config(seeded(name), base))->0;
            let cfg = merged(baseline, layer);
            let wiki = wiki_corpus(seeded_repository(name, base));
            &&& merge_fault(baseline, layer, xdg_path, Some(path)) is None
            &&& all_corpora(cfg.corpora, cfg.repositories).contains(wiki)
            &&& wiki.name == "repo:"@ + name + ":wiki"@
            &&& ends_in_name(root) ==> base == root
        }),
        resolved_inside(baseline, repo_config_path(root), Ok(seeded(name)), xdg_path, out) ==> (
        out matches Ok((cfg, layers)) && opt_view(layers.repo_path) == Some(repo_config_path(root))
            && corpus_names(all_corpora(cfg@.corpora, cfg@.repositories)).contains(
            "repo:"@ + name + ":wiki"@,
        )),
{
    let path = repo_config_path(root);
    config_path_has_a_parent(root);
    let base = layer_root(path)->0;
    if ends_in_name(root) {
        layer_root_is_where_it_was_found(root);
    }
    defaults_are_usable();
    let none = default_config();
    assert(corpus_names(all_corpora(none.corpora, none.repositories)).len() == 0);
    reveal_strlit(".");
    let bare = seeded(name).repositories[0];
    assert("."@[0] == '.');
    one_more_repository_is_usable(none, bare);
    assert(none.repositories.push(bare) =~= seeded(name).repositories);
    assert((ConfigModel { repositories: none.repositories.push(bare), ..none }) =~= seeded(name));
    seeded_seen_from(name, base);
    let repo = seeded_repository(name, base);
    assert(repo.path.last() == '.');
    assert(!is_blank(repo.path)) by {
        assert(!crate::text::is_space(repo.path[repo.path.len() - 1]));
    }
    let layer = resolved_config(seeded(name), base);
    one_more_repository_is_usable(none, repo);
    assert(none.repositories.push(repo) =~= seq![repo]);
    assert((ConfigModel { repositories: none.repositories.push(repo), ..none }) =~= layer);
    assert(normalized(layer) == Some(layer));
    let cfg = merged(baseline, layer);
    one_more_repository_is_usable(baseline, repo);
    assert(cfg.repositories =~= baseline.repositories.push(repo));
    assert(cfg.corpora =~= baseline.corpora);
    every_repository_has_its_wiki(
        cfg.corpora,
        cfg.repositories,
        baseline.repositories.len() as int,
    );
    let all = all_corpora(cfg.corpora, cfg.repositories);
    let i = choose|i: int| 0 <= i < all.len() && all[i] == wiki_corpus(repo);
    assert(corpus_names(all)[i] == "repo:"@ + name + ":wiki"@);
}

/// A repository that was set up is seen from its root as soon as the decoder reads
/// the configuration that was written as what it says: a request there, with
/// nothing else configured, has the wiki of the repository under its name.
pub proof fn set_up_repositories_are_seen(
    plan: InitPlan,
    name: Seq<char>,
    root: Seq<char>,
    index_exists: bool,
    decode: spec_fn(Seq<char>) -> Result<ConfigModel, Seq<char>>,
    out: Outcome<(Config, ResolvedLayers)>,
)
    requires
        repo_name_fault(name) is None,
        sets_up(plan, name, root, index_exists),
        decode(config_text(toml_literal(name))) == Ok::<ConfigModel, Seq<char>>(seeded(name)),
        resolved_inside(
            default_config(),
            plan.config_path@,
            decode(plan.config_body@),
            None,
            out,
        ),
    ensures
        out matches Ok((cfg, layers)) && opt_view(layers.repo_path) == Some(plan.config_path@)
            && corpus_names(all_corpora(cfg@.corpora, cfg@.repositories)).contains(
            "repo:"@ + name + ":wiki"@,
        ),
{
    defaults_are_usable();
    let none = default_config();
    assert(corpus_names(all_corpora(none.corpora, none.repositories)).len() == 0);
    seeded_configurations_are_accepted(name, root, none, None, out);
}

/// A repository that is set up has its configuration and its wiki in a directory
/// of its own below its root.
pub proof fn everything_is_below_the_root(
    plan: InitPlan,
    name: Seq<char>,
    root: Seq<char>,
    index_exists: bool,
)
    requires
        sets_up(plan, name, root, index_exists),
        root.len() > 0,
        root.last() != '/',
    ensures
        plan.config_path@ == root + "/.hallouminate/config.toml"@,
        plan.wiki_dir@ == root + "/.hallouminate/wiki"@,
        plan.index_path@ == root + "/.hallouminate/wiki/index.md"@,
        plan.index_body is None <==> index_exists,
        plan.index_body matches Some(body) ==> body@ == "# "@ + name + " wiki\n\n"@
            + "<!-- HALLOUMINATE:INDEX-START -->"@ + "\n"@ + "<!-- HALLOUMINATE:INDEX-END -->"@
            + "\n"@,
        plan.config_body@ == "[[repository]]\n"@ + ("name = "@ + toml_literal(name) + "\n"@)
            + "path = \".\"\n"@,
{
    reveal_strlit(".hallouminate");
    reveal_strlit("config.toml");
    reveal_strlit(".hallouminate/wiki");
    reveal_strlit("index.md");
    reveal_strlit("/.hallouminate/config.toml");
    reveal_strlit("/.hallouminate/wiki");
    reveal_strlit("/.hallouminate/wiki/index.md");
    reveal_strlit("[[repository]]\n");
    reveal_strlit("name = ");
    reveal_strlit("\n");
    reveal_strlit("path = \".\"\n");
    reveal_strlit("[[repository]]\nname = ");
    reveal_strlit("\npath = \".\"\n");
    assert(plan.config_path@ =~= root + "/.hallouminate/config.toml"@);
    assert(plan.wiki_dir@ =~= root + "/.hallouminate/wiki"@);
    assert(plan.index_path@ =~= root + "/.hallouminate/wiki/index.md"@);
    assert("[[repository]]\nname = "@ =~= "[[repository]]\n"@ + "name = "@);
    assert("\npath = \".\"\n"@ =~= "\n"@ + "path = \".\"\n"@);
    assert(plan.config_body@ =~= "[[repository]]\n"@ + ("name = "@ + toml_literal(name) + "\n"@)
        + "path = \".\"\n"@);
}

/// What is said when a repository was set up names its configuration, its wiki,
/// and the corpus that the wiki is.
pub proof fn setting_up_is_told_of(
    plan: InitPlan,
    name: Seq<char>,
    root: Seq<char>,
    index_exists: bool,
)
    requires
        sets_up(plan, name, root, index_exists),
    ensures
        plan.summary@ == "wrote "@ + plan.config_path@ + "\nwiki skeleton at "@ + plan.wiki_dir@
            + " (corpus: repo:"@ + name + ":wiki)\n"@,
{
}

} // verus!
