//! The configuration: its sections, their defaults, and when it can be used.

use vstd::prelude::*;

use crate::corpus::{
    all_corpora, copy_corpora, copy_repositories, corpora_fault, corpus_models, corpus_names,
    effective_corpora, repo_name_fault, repo_names_fault, repository_models, CorpusConfig,
    CorpusModel, RepositoryConfig, RepositoryModel,
};
use crate::error::{is_config_error, HallouminateError, Outcome};
use crate::models::{
    canonical_model, canonical_model_is_stable, canonical_model_name, unsupported_model_message,
    DEFAULT_MODEL,
};
use crate::path::{absolute, is_absolute, join, joined, joined_is_absolute};
use crate::text::{
    blank, cat2, cat3, decimal, decimal_text, is_blank, opt_str_view, owned, starts_with, views,
};

verus! {

/// How many files a search returns unless it asks for another number.
pub const DEFAULT_TOP_FILES: usize = 10;

/// How many chunks of a file a search returns unless it asks for another
/// number.
pub const DEFAULT_CHUNKS_PER_FILE: usize = 3;

/// How long the watcher waits for a file to settle, in milliseconds.
pub const DEFAULT_DEBOUNCE_MS: u64 = 500;

/// For how long the watcher does not repeat a failure, in seconds.
pub const DEFAULT_FAILURE_REMINDER_SECS: u64 = 60;

/// How large a log file grows, in bytes: ten mebibytes.
pub const DEFAULT_MAX_FILE_BYTES: u64 = 10_485_760;

/// How much all log files hold, in bytes: a hundred mebibytes.
pub const DEFAULT_MAX_TOTAL_BYTES: u64 = 104_857_600;

/// Where the embedding models are kept.
pub const DEFAULT_EMBED_CACHE: &'static str = "~/.cache/hallouminate/fastembed";

/// Where the store is kept.
pub const DEFAULT_GROUND_DIR: &'static str = "~/.local/share/hallouminate/ground";

/// The `[search]` section.
#[derive(Debug, Clone, Copy, PartialEq, Eq, Structural)]
pub struct SearchConfig {
    pub top_files_default: usize,
    pub chunks_per_file_default: usize,
}

/// The `[embeddings]` section.
#[derive(Debug, Clone, PartialEq, Eq)]
pub struct EmbeddingsConfig {
    /// Whether texts are embedded; searches are lexical only where they are not.
    pub enabled: bool,
    pub model: String,
    /// Whether the smaller variant of the model is used.
    pub quantized: bool,
    pub cache_dir: String,
}

/// The `[watch]` section.
#[derive(Debug, Clone, Copy, PartialEq, Eq, Structural)]
pub struct WatchConfig {
    pub debounce_ms: u64,
    /// For how long a failure is not repeated, in seconds; every failure is
    /// reported where it is zero.
    pub failure_reminder_secs: u64,
}

/// The `[storage]` section.
#[derive(Debug, Clone, PartialEq, Eq)]
pub struct StorageConfig {
    pub ground_dir: String,
}

/// The `[logging]` section.
#[derive(Debug, Clone, Copy, PartialEq, Eq, Structural)]
pub struct LoggingConfig {
    /// How large a log file grows, in bytes.
    pub max_file_bytes: u64,
    /// How much all log files hold, in bytes.
    pub max_total_bytes: u64,
}

/// The configuration.
#[derive(Debug, Clone, PartialEq)]
pub struct Config {
    /// The `[[corpus]]` entries.
    pub corpora: Vec<CorpusConfig>,
    /// The `[[repository]]` entries.
    pub repositories: Vec<RepositoryConfig>,
    pub search: SearchConfig,
    pub embeddings: EmbeddingsConfig,
    pub watch: WatchConfig,
    pub storage: StorageConfig,
    pub logging: LoggingConfig,
}

/// The model of a configuration.
#[verifier::ext_equal]
pub struct ConfigModel {
    pub corpora: Seq<CorpusModel>,
    pub repositories: Seq<RepositoryModel>,
    pub search: SearchConfig,
    pub embeddings_enabled: bool,
    pub model: Seq<char>,
    pub quantized: bool,
    pub cache_dir: Seq<char>,
    pub watch: WatchConfig,
    pub ground_dir: Seq<char>,
    pub logging: LoggingConfig,
}

impl View for Config {
    type V = ConfigModel;

    open spec fn view(&self) -> ConfigModel {
        ConfigModel {
            corpora: corpus_models(self.corpora@),
            repositories: repository_models(self.repositories@),
            search: self.search,
            embeddings_enabled: self.embeddings.enabled,
            model: self.embeddings.model@,
            quantized: self.embeddings.quantized,
            cache_dir: self.embeddings.cache_dir@,
            watch: self.watch,
            ground_dir: self.storage.ground_dir@,
            logging: self.logging,
        }
    }
}

/// The configuration where nothing is configured.
pub open spec fn default_config() -> ConfigModel {
    ConfigModel {
        corpora: Seq::empty(),
        repositories: Seq::empty(),
        search: SearchConfig {
            top_files_default: DEFAULT_TOP_FILES,
            chunks_per_file_default: DEFAULT_CHUNKS_PER_FILE,
        },
        embeddings_enabled: true,
        model: DEFAULT_MODEL@,
        quantized: false,
        cache_dir: DEFAULT_EMBED_CACHE@,
        watch: WatchConfig {
            debounce_ms: DEFAULT_DEBOUNCE_MS,
            failure_reminder_secs: DEFAULT_FAILURE_REMINDER_SECS,
        },
        ground_dir: DEFAULT_GROUND_DIR@,
        logging: LoggingConfig {
            max_file_bytes: DEFAULT_MAX_FILE_BYTES,
            max_total_bytes: DEFAULT_MAX_TOTAL_BYTES,
        },
    }
}

/// How many files a search returns unless it asks for another number.
pub fn default_top_files() -> (out: usize)
    ensures
        out == DEFAULT_TOP_FILES,
{
    DEFAULT_TOP_FILES
}

/// How many chunks of a file a search returns unless it asks for another
/// number.
pub fn default_chunks_per_file() -> (out: usize)
    ensures
        out == DEFAULT_CHUNKS_PER_FILE,
{
    DEFAULT_CHUNKS_PER_FILE
}

/// How long the watcher waits for a file to settle, in milliseconds.
pub fn default_debounce_ms() -> (out: u64)
    ensures
        out == DEFAULT_DEBOUNCE_MS,
{
    DEFAULT_DEBOUNCE_MS
}

/// The model that is used when none is configured.
pub fn default_model() -> (out: String)
    ensures
        out@ == DEFAULT_MODEL@,
{
    owned(DEFAULT_MODEL)
}

/// Where the embedding models are kept.
pub fn default_embed_cache() -> (out: String)
    ensures
        out@ == DEFAULT_EMBED_CACHE@,
{
    owned(DEFAULT_EMBED_CACHE)
}

/// Where the store is kept.
pub fn default_ground_dir() -> (out: String)
    ensures
        out@ == DEFAULT_GROUND_DIR@,
{
    owned(DEFAULT_GROUND_DIR)
}

impl Default for SearchConfig {
    fn default() -> (out: SearchConfig)
        ensures
            out == default_config().search,
    {
        SearchConfig {
            top_files_default: default_top_files(),
            chunks_per_file_default: default_chunks_per_file(),
        }
    }
}

impl Default for EmbeddingsConfig {
    fn default() -> (out: EmbeddingsConfig)
        ensures
            out.enabled,
            out.model@ == DEFAULT_MODEL@,
            !out.quantized,
            out.cache_dir@ == DEFAULT_EMBED_CACHE@,
    {
        EmbeddingsConfig {
            enabled: true,
            model: default_model(),
            quantized: false,
            cache_dir: default_embed_cache(),
        }
    }
}

impl Default for WatchConfig {
    fn default() -> (out: WatchConfig)
        ensures
            out == default_config().watch,
    {
        WatchConfig {
            debounce_ms: default_debounce_ms(),
            failure_reminder_secs: DEFAULT_FAILURE_REMINDER_SECS,
        }
    }
}

impl Default for LoggingConfig {
    fn default() -> (out: LoggingConfig)
        ensures
            out == default_config().logging,
    {
        LoggingConfig {
            max_file_bytes: DEFAULT_MAX_FILE_BYTES,
            max_total_bytes: DEFAULT_MAX_TOTAL_BYTES,
        }
    }
}

impl Default for StorageConfig {
    fn default() -> (out: StorageConfig)
        ensures
            out.ground_dir@ == DEFAULT_GROUND_DIR@,
    {
        StorageConfig { ground_dir: default_ground_dir() }
    }
}

impl Default for Config {
    fn default() -> (out: Config)
        ensures
            out@ == default_config(),
    {
        let out = Config {
            corpora: Vec::new(),
            repositories: Vec::new(),
            search: SearchConfig::default(),
            embeddings: EmbeddingsConfig::default(),
            watch: WatchConfig::default(),
            storage: StorageConfig::default(),
            logging: LoggingConfig::default(),
        };
        proof {
            assert(out@ =~= default_config());
        }
        out
    }
}

impl Config {
    /// A configuration with the same model.
    pub fn copy(&self) -> (out: Config)
        ensures
            out@ == self@,
    {
        Config {
            corpora: copy_corpora(&self.corpora),
            repositories: copy_repositories(&self.repositories),
            search: self.search,
            embeddings: EmbeddingsConfig {
                enabled: self.embeddings.enabled,
                model: self.embeddings.model.clone(),
                quantized: self.embeddings.quantized,
                cache_dir: self.embeddings.cache_dir.clone(),
            },
            watch: self.watch,
            storage: StorageConfig { ground_dir: self.storage.ground_dir.clone() },
            logging: self.logging,
        }
    }

    /// Every corpus that requests can ask for: the `[[corpus]]` entries, then
    /// the corpora of the `[[repository]]` entries.  An error where two have one
    /// name, so that a declared corpus cannot stand for a repository's.
    pub fn effective_corpora(&self) -> (out: Outcome<Vec<CorpusConfig>>)
        ensures
            match corpora_fault(self@.corpora, self@.repositories) {
                Some(fault) => is_config_error(out, fault),
                None => out matches Ok(list) && corpus_models(list@) == all_corpora(
                    self@.corpora,
                    self@.repositories,
                ),
            },
    {
        effective_corpora(&self.corpora, &self.repositories)
    }
}

/// What is wrong with the corpus at `idx`, if anything.
pub open spec fn corpus_fault(corpus: CorpusModel, idx: nat) -> Option<Seq<char>> {
    if is_blank(corpus.name) {
        Some("corpus #"@ + decimal(idx) + " has empty name"@)
    } else if corpus.paths.len() == 0 {
        Some("corpus '"@ + corpus.name + "' has no paths"@)
    } else {
        None
    }
}

/// What is wrong with the first of the corpora that cannot be used.
pub open spec fn corpus_list_fault(corpora: Seq<CorpusModel>) -> Option<Seq<char>>
    decreases corpora.len(),
{
    if corpora.len() == 0 {
        None
    } else {
        match corpus_list_fault(corpora.drop_last()) {
            Some(fault) => Some(fault),
            None => corpus_fault(corpora.last(), (corpora.len() - 1) as nat),
        }
    }
}

/// What is wrong with the repository at `idx`, if anything.
pub open spec fn repository_fault(repo: RepositoryModel, idx: nat) -> Option<Seq<char>> {
    if is_blank(repo.name) {
        Some("repository #"@ + decimal(idx) + " has empty name"@)
    } else if is_blank(repo.path) {
        Some("repository '"@ + repo.name + "' has empty path"@)
    } else {
        None
    }
}

/// What is wrong with the first of the repositories that cannot be used.
pub open spec fn repository_list_fault(repos: Seq<RepositoryModel>) -> Option<Seq<char>>
    decreases repos.len(),
{
    if repos.len() == 0 {
        None
    } else {
        match repository_list_fault(repos.drop_last()) {
            Some(fault) => Some(fault),
            None => repository_fault(repos.last(), (repos.len() - 1) as nat),
        }
    }
}

/// Whether a repository can be used as it is configured.
pub open spec fn is_usable(repo: RepositoryModel) -> bool {
    repo_name_fault(repo.name) is None && !is_blank(repo.path)
}

/// A list of repositories has no fault exactly when each of them can be used.
pub proof fn faultless_lists_are_usable(repos: Seq<RepositoryModel>)
    ensures
        repository_list_fault(repos) is None && repo_names_fault(repos) is None <==> forall|i: int|
            0 <= i < repos.len() ==> is_usable(#[trigger] repos[i]),
    decreases repos.len(),
{
    if repos.len() > 0 {
        let front = repos.drop_last();
        faultless_lists_are_usable(front);
        if forall|i: int| 0 <= i < repos.len() ==> is_usable(#[trigger] repos[i]) {
            assert forall|i: int| 0 <= i < front.len() implies is_usable(#[trigger] front[i]) by {
                assert(is_usable(repos[i]));
            }
            assert(is_usable(repos[repos.len() - 1]));
        } else if repository_list_fault(repos) is None && repo_names_fault(repos) is None {
            assert forall|i: int| 0 <= i < repos.len() implies is_usable(#[trigger] repos[i]) by {
                if i < front.len() {
                    assert(is_usable(front[i]));
                }
            }
        }
    }
}

/// Why the configuration cannot be used, if it cannot.
pub open spec fn config_fault(cfg: ConfigModel) -> Option<Seq<char>> {
    match corpus_list_fault(cfg.corpora) {
        Some(fault) => Some(fault),
        None => match repository_list_fault(cfg.repositories) {
            Some(fault) => Some(fault),
            None => corpora_fault(cfg.corpora, cfg.repositories),
        },
    }
}

/// The configuration with the name by which the library knows its model.
pub open spec fn normalized(cfg: ConfigModel) -> Option<ConfigModel> {
    match canonical_model(cfg.model) {
        Some(model) => Some(ConfigModel { model, ..cfg }),
        None => None,
    }
}

/// Fails where the configuration cannot be used: a corpus without a name or
/// paths, a repository without a name or path, or corpora that cannot be told
/// apart.
pub fn validate(cfg: &Config) -> (out: Outcome<()>)
    ensures
        match config_fault(cfg@) {
            Some(fault) => is_config_error(out, fault),
            None => out is Ok,
        },
{
    let ghost corpora = corpus_models(cfg.corpora@);
    let ghost repos = repository_models(cfg.repositories@);
    for idx in 0..cfg.corpora.len()
        invariant
            corpora == corpus_models(cfg.corpora@),
            corpus_list_fault(corpora.take(idx as int)) is None,
    {
        let c = &cfg.corpora[idx];
        proof {
            assert(corpora.take(idx + 1).drop_last() =~= corpora.take(idx as int));
            assert(corpora.take(idx + 1).last() == c@);
        }
        if blank(c.name.as_str()) {
            proof {
                corpus_list_fault_stays(corpora, idx + 1);
            }
            let number = decimal_text(idx as u64);
            return Err(
                HallouminateError::Config(cat3("corpus #", number.as_str(), " has empty name")),
            );
        }
        if c.paths.len() == 0 {
            proof {
                corpus_list_fault_stays(corpora, idx + 1);
            }
            return Err(
                HallouminateError::Config(cat3("corpus '", c.name.as_str(), "' has no paths")),
            );
        }
    }
    proof {
        assert(corpora.take(corpora.len() as int) =~= corpora);
    }
    for idx in 0..cfg.repositories.len()
        invariant
            corpora == corpus_models(cfg.corpora@),
            repos == repository_models(cfg.repositories@),
            corpus_list_fault(corpora) is None,
            repository_list_fault(repos.take(idx as int)) is None,
    {
        let r = &cfg.repositories[idx];
        proof {
            assert(repos.take(idx + 1).drop_last() =~= repos.take(idx as int));
            assert(repos.take(idx + 1).last() == r@);
        }
        if blank(r.name.as_str()) {
            proof {
                repository_list_fault_stays(repos, idx + 1);
            }
            let number = decimal_text(idx as u64);
            return Err(
                HallouminateError::Config(cat3("repository #", number.as_str(), " has empty name")),
            );
        }
        if blank(r.path.as_str()) {
            proof {
                repository_list_fault_stays(repos, idx + 1);
            }
            return Err(
                HallouminateError::Config(
                    cat3("repository '", r.name.as_str(), "' has empty path"),
                ),
            );
        }
    }
    proof {
        assert(repos.take(repos.len() as int) =~= repos);
    }
    match cfg.effective_corpora() {
        Ok(_) => Ok(()),
        Err(e) => Err(e),
    }
}

proof fn corpus_list_fault_stays(corpora: Seq<CorpusModel>, n: int)
    requires
        0 <= n <= corpora.len(),
        corpus_list_fault(corpora.take(n)) is Some,
    ensures
        corpus_list_fault(corpora) == corpus_list_fault(corpora.take(n)),
    decreases corpora.len(),
{
    if n < corpora.len() {
        assert(corpora.drop_last().take(n) =~= corpora.take(n));
        corpus_list_fault_stays(corpora.drop_last(), n);
    } else {
        assert(corpora.take(n) =~= corpora);
    }
}

proof fn repository_list_fault_stays(repos: Seq<RepositoryModel>, n: int)
    requires
        0 <= n <= repos.len(),
        repository_list_fault(repos.take(n)) is Some,
    ensures
        repository_list_fault(repos) == repository_list_fault(repos.take(n)),
    decreases repos.len(),
{
    if n < repos.len() {
        assert(repos.drop_last().take(n) =~= repos.take(n));
        repository_list_fault_stays(repos.drop_last(), n);
    } else {
        assert(repos.take(n) =~= repos);
    }
}

/// Gives the model the name by which the library knows it; an error, and no
/// change, where it is not supported.
pub fn normalize(cfg: &mut Config) -> (out: Outcome<()>)
    ensures
        match normalized(old(cfg)@) {
            Some(next) => out is Ok && final(cfg)@ == next,
            None => final(cfg)@ == old(cfg)@ && is_config_error(
                out,
                unsupported_model_message(old(cfg)@.model),
            ),
        },
{
    match canonical_model_name(cfg.embeddings.model.as_str()) {
        Ok(model) => {
            cfg.embeddings.model = model;
            Ok(())
        },
        Err(e) => Err(e),
    }
}

/// Why a decoded configuration is refused, if it is.
pub open spec fn load_fault(cfg: ConfigModel) -> Option<Seq<char>> {
    match normalized(cfg) {
        Some(next) => config_fault(next),
        None => Some(unsupported_model_message(cfg.model)),
    }
}

/// The message for a text that is no configuration.
pub open spec fn parse_message(source: Option<Seq<char>>, detail: Seq<char>) -> Seq<char> {
    match source {
        Some(path) => "parsing config at "@ + path + ": "@ + detail,
        None => "parsing config: "@ + detail,
    }
}

/// The configuration that a file holds, from what the decoder of its text
/// returned; `source` says where the text came from.
pub fn parse(decoded: Result<Config, String>, source: Option<&str>) -> (out: Outcome<Config>)
    ensures
        match decoded {
            Err(detail) => is_config_error(
                out,
                parse_message(opt_str_view(source), detail@),
            ),
            Ok(cfg) => match load_fault(cfg@) {
                Some(fault) => is_config_error(out, fault),
                None => out matches Ok(loaded) && Some(loaded@) == normalized(cfg@),
            },
        },
{
    match decoded {
        Err(detail) => {
            let message = match source {
                Some(path) => {
                    let start = cat3("parsing config at ", path, ": ");
                    cat2(start.as_str(), detail.as_str())
                },
                None => cat2("parsing config: ", detail.as_str()),
            };
            Err(HallouminateError::Config(message))
        },
        Ok(cfg) => {
            let mut loaded = cfg;
            match normalize(&mut loaded) {
                Ok(_) => {},
                Err(e) => {
                    return Err(e);
                },
            }
            match validate(&loaded) {
                Ok(_) => Ok(loaded),
                Err(e) => Err(e),
            }
        },
    }
}

/// What reading the configuration file gave.
pub enum ConfigFile {
    /// There is no such file.
    NotFound,
    /// It cannot be read; the text says why.
    Unreadable(String),
    /// It was read, and decoded or not.
    Read(Result<Config, String>),
}

/// The configuration from its file at `path`.  Where there is no file, the
/// defaults; any other failure to read it is an error.
pub fn load_xdg(path: &str, file: ConfigFile) -> (out: Outcome<Config>)
    ensures
        match file {
            ConfigFile::NotFound => out matches Ok(cfg) && cfg@ == default_config(),
            ConfigFile::Unreadable(detail) => out matches Err(HallouminateError::Io(m)) && m@
                == detail@,
            ConfigFile::Read(Err(detail)) => is_config_error(
                out,
                parse_message(Some(path@), detail@),
            ),
            ConfigFile::Read(Ok(cfg)) => match load_fault(cfg@) {
                Some(fault) => is_config_error(out, fault),
                None => out matches Ok(loaded) && Some(loaded@) == normalized(cfg@),
            },
        },
{
    match file {
        ConfigFile::NotFound => Ok(Config::default()),
        ConfigFile::Unreadable(detail) => Err(HallouminateError::Io(detail)),
        ConfigFile::Read(decoded) => parse(decoded, Some(path)),
    }
}

/// The configuration from its file at `path`, as `load_xdg` gives it.
pub fn load(path: &str, file: ConfigFile) -> (out: Outcome<Config>)
    ensures
        match file {
            ConfigFile::NotFound => out matches Ok(cfg) && cfg@ == default_config(),
            ConfigFile::Unreadable(detail) => out matches Err(HallouminateError::Io(m)) && m@
                == detail@,
            ConfigFile::Read(Err(detail)) => is_config_error(
                out,
                parse_message(Some(path@), detail@),
            ),
            ConfigFile::Read(Ok(cfg)) => match load_fault(cfg@) {
                Some(fault) => is_config_error(out, fault),
                None => out matches Ok(loaded) && Some(loaded@) == normalized(cfg@),
            },
        },
{
    load_xdg(path, file)
}

/// A configuration that was loaded loads again as it is.
pub proof fn loading_is_stable(cfg: ConfigModel)
    requires
        load_fault(cfg) is None,
    ensures
        normalized(cfg) matches Some(loaded) && normalized(loaded) == Some(loaded) && load_fault(
            loaded,
        ) is None,
{
    canonical_model_is_stable(cfg.model);
}

/// A configuration that was loaded has corpora that can be listed.
pub proof fn loaded_corpora_can_be_listed(cfg: ConfigModel)
    requires
        load_fault(cfg) is None,
    ensures
        normalized(cfg) matches Some(loaded) && corpora_fault(
            loaded.corpora,
            loaded.repositories,
        ) is None,
{
}

/// The defaults can be used.
pub proof fn defaults_are_usable()
    ensures
        load_fault(default_config()) is None,
        normalized(default_config()) == Some(default_config()),
{
    let cfg = default_config();
    assert(crate::corpus::all_derived(cfg.repositories) =~= Seq::<CorpusModel>::empty());
    assert(all_corpora(cfg.corpora, cfg.repositories) =~= Seq::<CorpusModel>::empty());
    assert(crate::corpus::corpus_names(all_corpora(cfg.corpora, cfg.repositories)) =~= Seq::<
        Seq<char>,
    >::empty());
    assert(config_fault(cfg) is None);
    assert(normalized(cfg) == Some(cfg));
}

/// The path of a repository's configuration, seen from the repository's root.
/// What is empty, absolute or starts with `~` is left as it is written.
pub open spec fn resolved_path(raw: Seq<char>, base: Seq<char>) -> Seq<char> {
    if raw.len() == 0 || raw[0] == '~' || absolute(raw) {
        raw
    } else {
        joined(base, raw)
    }
}

/// The paths of a list, seen from the repository's root.
pub open spec fn resolved_list(list: Seq<Seq<char>>, base: Seq<char>) -> Seq<Seq<char>> {
    Seq::new(list.len(), |i: int| resolved_path(list[i], base))
}

/// A corpus whose paths are seen from the repository's root.
pub open spec fn resolved_corpus(corpus: CorpusModel, base: Seq<char>) -> CorpusModel {
    CorpusModel { paths: resolved_list(corpus.paths, base), ..corpus }
}

/// A repository whose paths are seen from the repository's root.
pub open spec fn resolved_repository(repo: RepositoryModel, base: Seq<char>) -> RepositoryModel {
    RepositoryModel {
        path: resolved_path(repo.path, base),
        corpus_paths: resolved_list(repo.corpus_paths, base),
        ..repo
    }
}

/// The configuration whose paths are seen from the repository's root.
pub open spec fn resolved_config(cfg: ConfigModel, base: Seq<char>) -> ConfigModel {
    ConfigModel {
        corpora: Seq::new(cfg.corpora.len(), |i: int| resolved_corpus(cfg.corpora[i], base)),
        repositories: Seq::new(
            cfg.repositories.len(),
            |i: int| resolved_repository(cfg.repositories[i], base),
        ),
        cache_dir: resolved_path(cfg.cache_dir, base),
        ground_dir: resolved_path(cfg.ground_dir, base),
        ..cfg
    }
}

/// The path of a repository's configuration, seen from the repository's root.
pub fn resolve_repo_path(raw: &str, base: &str) -> (out: String)
    ensures
        out@ == resolved_path(raw@, base@),
{
    let tilde = starts_with(raw, "~");
    proof {
        reveal_strlit("~");
        if raw@.len() > 0 {
            assert(raw@.take(1)[0] == raw@[0]);
            assert(raw@[0] == '~' ==> raw@.take(1) =~= "~"@);
        }
    }
    if raw.is_empty() || tilde || is_absolute(raw) {
        return owned(raw);
    }
    join(base, raw)
}

fn resolve_list(list: &Vec<String>, base: &str) -> (out: Vec<String>)
    ensures
        views(out@) == resolved_list(views(list@), base@),
{
    let mut out: Vec<String> = Vec::new();
    for i in 0..list.len()
        invariant
            views(out@) == resolved_list(views(list@), base@).take(i as int),
    {
        let ghost before = views(out@);
        let next = resolve_repo_path(list[i].as_str(), base);
        out.push(next);
        proof {
            let all = resolved_list(views(list@), base@);
            assert(all.take(i + 1) =~= before.push(all[i as int]));
            assert(views(out@) =~= before.push(all[i as int]));
        }
    }
    proof {
        let all = resolved_list(views(list@), base@);
        assert(all.take(all.len() as int) =~= all);
    }
    out
}

/// Rewrites every relative path of the configuration as seen from `base`.
/// Absolute paths and those that start with `~` stay, and nothing is
/// normalized.
pub fn resolve_repo_layer_paths(cfg: &mut Config, base: &str)
    ensures
        final(cfg)@ == resolved_config(old(cfg)@, base@),
{
    let ghost start = cfg@;
    let mut corpora: Vec<CorpusConfig> = Vec::new();
    for i in 0..cfg.corpora.len()
        invariant
            corpus_models(corpora@) == resolved_config(cfg@, base@).corpora.take(i as int),
    {
        let ghost before = corpus_models(corpora@);
        let c = cfg.corpora[i].copy();
        let next = CorpusConfig { paths: resolve_list(&c.paths, base), ..c };
        corpora.push(next);
        proof {
            let all = resolved_config(cfg@, base@).corpora;
            assert(next@ =~= all[i as int]);
            assert(corpus_models(corpora@) =~= before.push(next@));
            assert(all.take(i + 1) =~= before.push(next@));
        }
    }
    let mut repositories: Vec<RepositoryConfig> = Vec::new();
    for i in 0..cfg.repositories.len()
        invariant
            repository_models(repositories@) == resolved_config(cfg@, base@).repositories.take(
                i as int,
            ),
    {
        let ghost before = repository_models(repositories@);
        let r = cfg.repositories[i].copy();
        let next = RepositoryConfig {
            path: resolve_repo_path(r.path.as_str(), base),
            corpus_paths: resolve_list(&r.corpus_paths, base),
            ..r
        };
        repositories.push(next);
        proof {
            let all = resolved_config(cfg@, base@).repositories;
            assert(next@ =~= all[i as int]);
            assert(repository_models(repositories@) =~= before.push(next@));
            assert(all.take(i + 1) =~= before.push(next@));
        }
    }
    proof {
        let all = resolved_config(cfg@, base@);
        assert(all.corpora.take(all.corpora.len() as int) =~= all.corpora);
        assert(all.repositories.take(all.repositories.len() as int) =~= all.repositories);
    }
    cfg.corpora = corpora;
    cfg.repositories = repositories;
    cfg.storage.ground_dir = resolve_repo_path(cfg.storage.ground_dir.as_str(), base);
    cfg.embeddings.cache_dir = resolve_repo_path(cfg.embeddings.cache_dir.as_str(), base);
    proof {
        assert(cfg@ =~= resolved_config(start, base@));
    }
}

/// Seen from an absolute root, the paths of a configuration no longer depend on
/// where they are seen from.
pub proof fn resolved_paths_are_settled(cfg: ConfigModel, base: Seq<char>, elsewhere: Seq<char>)
    requires
        absolute(base),
    ensures
        resolved_config(resolved_config(cfg, base), elsewhere) == resolved_config(cfg, base),
{
    let once = resolved_config(cfg, base);
    let twice = resolved_config(once, elsewhere);
    assert forall|raw: Seq<char>| #[trigger]
        resolved_path(resolved_path(raw, base), elsewhere) == resolved_path(raw, base) by {
        joined_is_absolute(base, raw);
    }
    assert forall|i: int| 0 <= i < once.corpora.len() implies twice.corpora[i]
        == #[trigger] once.corpora[i] by {
        assert(twice.corpora[i].paths =~= once.corpora[i].paths);
    }
    assert forall|i: int| 0 <= i < once.repositories.len() implies twice.repositories[i]
        == #[trigger] once.repositories[i] by {
        assert(twice.repositories[i].corpus_paths =~= once.repositories[i].corpus_paths);
    }
    assert(twice =~= once);
}

/// The first corpus that lacks a name, or has a name and no paths, is the one
/// that is told of, by its place or by its name.
pub proof fn the_first_unusable_corpus_is_told(corpora: Seq<CorpusModel>, i: int)
    requires
        0 <= i <= corpora.len(),
        forall|j: int|
            0 <= j < i ==> !is_blank((#[trigger] corpora[j]).name) && corpora[j].paths.len() > 0,
        i < corpora.len() ==> is_blank(corpora[i].name) || corpora[i].paths.len() == 0,
    ensures
        i == corpora.len() ==> corpus_list_fault(corpora) is None,
        i < corpora.len() ==> corpus_list_fault(corpora) == Some(
            if is_blank(corpora[i].name) {
                "corpus #"@ + decimal(i as nat) + " has empty name"@
            } else {
                "corpus '"@ + corpora[i].name + "' has no paths"@
            },
        ),
    decreases corpora.len(),
{
    if corpora.len() > 0 {
        let front = corpora.drop_last();
        let at = if i < front.len() {
            i
        } else {
            front.len() as int
        };
        assert forall|j: int| 0 <= j < at implies !is_blank((#[trigger] front[j]).name)
            && front[j].paths.len() > 0 by {
            assert(front[j] == corpora[j]);
        }
        if at < front.len() {
            assert(front[at] == corpora[at]);
        }
        the_first_unusable_corpus_is_told(front, at);
        if i == corpora.len() {
            assert(!is_blank(corpora[corpora.len() - 1].name));
        }
    }
}

/// The first repository that lacks a name, or has a name and no path, is the one
/// that is told of, by its place or by its name.
pub proof fn the_first_unusable_repository_is_told(repos: Seq<RepositoryModel>, i: int)
    requires
        0 <= i <= repos.len(),
        forall|j: int|
            0 <= j < i ==> !is_blank((#[trigger] repos[j]).name) && !is_blank(repos[j].path),
        i < repos.len() ==> is_blank(repos[i].name) || is_blank(repos[i].path),
    ensures
        i == repos.len() ==> repository_list_fault(repos) is None,
        i < repos.len() ==> repository_list_fault(repos) == Some(
            if is_blank(repos[i].name) {
                "repository #"@ + decimal(i as nat) + " has empty name"@
            } else {
                "repository '"@ + repos[i].name + "' has empty path"@
            },
        ),
    decreases repos.len(),
{
    if repos.len() > 0 {
        let front = repos.drop_last();
        let at = if i < front.len() {
            i
        } else {
            front.len() as int
        };
        assert forall|j: int| 0 <= j < at implies !is_blank((#[trigger] front[j]).name)
            && !is_blank(front[j].path) by {
            assert(front[j] == repos[j]);
        }
        if at < front.len() {
            assert(front[at] == repos[at]);
        }
        the_first_unusable_repository_is_told(front, at);
        if i == repos.len() {
            assert(!is_blank(repos[repos.len() - 1].name));
        }
    }
}

proof fn corpora_without_fault(corpora: Seq<CorpusModel>)
    ensures
        corpus_list_fault(corpora) is None <==> forall|i: int|
            0 <= i < corpora.len() ==> !is_blank((#[trigger] corpora[i]).name)
                && corpora[i].paths.len() > 0,
    decreases corpora.len(),
{
    if corpora.len() > 0 {
        let front = corpora.drop_last();
        corpora_without_fault(front);
        assert forall|j: int| 0 <= j < front.len() implies front[j] == #[trigger] corpora[j] by {}
        if forall|i: int|
            0 <= i < front.len() ==> !is_blank((#[trigger] front[i]).name) && front[i].paths.len()
                > 0 {
            assert forall|i: int|
                0 <= i < corpora.len() - 1 implies !is_blank((#[trigger] corpora[i]).name)
                && corpora[i].paths.len() > 0 by {
                assert(front[i] == corpora[i]);
            }
        } else {
            let i = choose|i: int|
                0 <= i < front.len() && !(!is_blank((#[trigger] front[i]).name)
                    && front[i].paths.len() > 0);
            assert(front[i] == corpora[i]);
        }
        assert(corpora.last() == corpora[corpora.len() - 1]);
    }
}

/// A configuration can be used exactly where every corpus has a name and a path,
/// every repository has a path and a name without a colon, and no two corpora,
/// those of the repositories with them, have one name.
pub proof fn usable_configurations_are_complete(cfg: ConfigModel)
    ensures
        config_fault(cfg) is None <==> {
            &&& forall|i: int|
                0 <= i < cfg.corpora.len() ==> !is_blank((#[trigger] cfg.corpora[i]).name)
                    && cfg.corpora[i].paths.len() > 0
            &&& forall|i: int|
                0 <= i < cfg.repositories.len() ==> !is_blank((#[trigger] cfg.repositories[i]).name)
                    && !cfg.repositories[i].name.contains(':') && !is_blank(
                    cfg.repositories[i].path,
                )
            &&& corpus_names(all_corpora(cfg.corpora, cfg.repositories)).no_duplicates()
        },
{
    corpora_without_fault(cfg.corpora);
    faultless_lists_are_usable(cfg.repositories);
    crate::corpus::first_duplicate_is_exact(
        corpus_names(all_corpora(cfg.corpora, cfg.repositories)),
    );
    if forall|i: int| 0 <= i < cfg.repositories.len() ==> is_usable(#[trigger] cfg.repositories[i]) {
        assert forall|i: int| 0 <= i < cfg.repositories.len() implies !is_blank(
            (#[trigger] cfg.repositories[i]).name,
        ) && !cfg.repositories[i].name.contains(':') && !is_blank(cfg.repositories[i].path) by {
            assert(is_usable(cfg.repositories[i]));
        }
    }
}

/// What is seen from the root of a repository is every path that starts neither
/// at the root of the file system nor at the home directory.  Nothing but paths
/// changes, and every one of them is looked at.
pub proof fn every_path_is_seen_from_the_root(cfg: ConfigModel, base: Seq<char>)
    requires
        base.len() > 0,
        base.last() != '/',
    ensures
        ({
            let seen = |raw: Seq<char>|
                if raw.len() == 0 || raw[0] == '~' || raw[0] == '/' {
                    raw
                } else {
                    base + seq!['/'] + raw
                };
            let out = resolved_config(cfg, base);
            &&& out.corpora.len() == cfg.corpora.len()
            &&& forall|i: int|
                0 <= i < cfg.corpora.len() ==> {
                    &&& (#[trigger] out.corpora[i]).name == cfg.corpora[i].name
                    &&& out.corpora[i].globs == cfg.corpora[i].globs
                    &&& out.corpora[i].exclude == cfg.corpora[i].exclude
                    &&& out.corpora[i].global == cfg.corpora[i].global
                    &&& out.corpora[i].paths =~= cfg.corpora[i].paths.map_values(seen)
                }
            &&& out.repositories.len() == cfg.repositories.len()
            &&& forall|i: int|
                0 <= i < cfg.repositories.len() ==> {
                    &&& (#[trigger] out.repositories[i]).name == cfg.repositories[i].name
                    &&& out.repositories[i].path == seen(cfg.repositories[i].path)
                    &&& out.repositories[i].corpus_paths
                        =~= cfg.repositories[i].corpus_paths.map_values(seen)
                }
            &&& out.cache_dir == seen(cfg.cache_dir)
            &&& out.ground_dir == seen(cfg.ground_dir)
            &&& out.search == cfg.search
            &&& out.embeddings_enabled == cfg.embeddings_enabled
            &&& out.model == cfg.model
            &&& out.quantized == cfg.quantized
            &&& out.watch == cfg.watch
            &&& out.logging == cfg.logging
        }),
{
}

/// Loading gives the model the name by which it is known, and changes nothing
/// else; a model that is not known is refused by name.
pub proof fn loading_changes_the_name_of_the_model_alone(cfg: ConfigModel)
    ensures
        normalized(cfg) matches Some(loaded) ==> {
            &&& Some(loaded.model) == canonical_model(cfg.model)
            &&& loaded == (ConfigModel { model: loaded.model, ..cfg })
        },
        normalized(cfg) is None <==> canonical_model(cfg.model) is None,
        canonical_model(cfg.model) is None ==> load_fault(cfg) == Some(
            unsupported_model_message(cfg.model),
        ),
{
}

/// A text that is no configuration is refused with where it came from, where that
/// is known, and what is wrong with it.
pub proof fn texts_that_are_no_configuration_are_told_of(path: Seq<char>, detail: Seq<char>)
    ensures
        parse_message(Some(path), detail) == "parsing config at "@ + path + ": "@ + detail,
        parse_message(None, detail) == "parsing config: "@ + detail,
{
}

} // verus!
