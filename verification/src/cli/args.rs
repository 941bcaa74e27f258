//! What the commands take.

use vstd::prelude::*;

use crate::cli::ground::{Format, GroundArgs};
use crate::daemon::server::DaemonArgs;
use crate::index::IndexArgs;

verus! {

/// How the results of a search are shown.
#[derive(Debug, Clone, Copy, PartialEq, Eq, Structural)]
pub enum FormatArg {
    Outline,
    Json,
    JsonPretty,
}

impl Default for FormatArg {
    fn default() -> (out: FormatArg)
        ensures
            out == FormatArg::Outline,
    {
        FormatArg::Outline
    }
}

/// The command line.
#[derive(Debug)]
pub struct Cli {
    pub command: Command,
}

/// A command.
#[derive(Debug)]
pub enum Command {
    /// Index corpora.
    Index(IndexCli),
    /// Search.
    Ground(GroundCli),
    /// Look after the git hooks.
    Hook { action: HookAction },
    /// Look after the configuration.
    Config { action: ConfigAction },
    /// Serve the tools of a language model on standard input and output.
    Serve,
    /// Run the daemon.
    Daemon(DaemonCli),
}

/// What the daemon takes.
#[derive(Debug)]
pub struct DaemonCli {
    pub config: Option<String>,
}

/// What the index command takes.
#[derive(Debug)]
pub struct IndexCli {
    pub corpus: Option<String>,
    pub paths_from: Option<String>,
    pub config: Option<String>,
    pub socket: Option<String>,
}

/// What the search command takes.
#[derive(Debug)]
pub struct GroundCli {
    pub query: String,
    pub corpus: Option<String>,
    pub format: FormatArg,
    /// Show everything, for people to read.
    pub full: bool,
    pub snippet_chars: Option<usize>,
    pub top_files: Option<usize>,
    pub chunks_per_file: Option<usize>,
    pub limit: Option<usize>,
    pub config: Option<String>,
    pub socket: Option<String>,
}

/// What is done about the git hooks.
#[derive(Debug)]
pub enum HookAction {
    Install { repo: Option<String> },
    Uninstall { repo: Option<String> },
}

/// What is done about the configuration.
#[derive(Debug)]
pub enum ConfigAction {
    Init { force: bool, path: Option<String> },
    Show { config: Option<String>, cwd: Option<String> },
    Download { config: Option<String> },
    Validate { config: Option<String>, cwd: Option<String> },
}

/// The format that is meant: `--full` is the one for people.
pub open spec fn chosen_format(full: bool, format: FormatArg) -> Format {
    if full {
        Format::JsonPretty
    } else {
        match format {
            FormatArg::Outline => Format::Outline,
            FormatArg::Json => Format::Json,
            FormatArg::JsonPretty => Format::JsonPretty,
        }
    }
}

impl From<DaemonCli> for DaemonArgs {
    fn from(cli: DaemonCli) -> (out: DaemonArgs) {
        DaemonArgs { config: cli.config }
    }
}

impl vstd::std_specs::convert::FromSpecImpl<DaemonCli> for DaemonArgs {
    open spec fn obeys_from_spec() -> bool {
        true
    }

    open spec fn from_spec(cli: DaemonCli) -> DaemonArgs {
        DaemonArgs { config: cli.config }
    }
}

impl From<IndexCli> for IndexArgs {
    fn from(cli: IndexCli) -> (out: IndexArgs) {
        IndexArgs {
            corpus: cli.corpus,
            paths_from: cli.paths_from,
            config: cli.config,
            socket: cli.socket,
        }
    }
}

impl vstd::std_specs::convert::FromSpecImpl<IndexCli> for IndexArgs {
    open spec fn obeys_from_spec() -> bool {
        true
    }

    open spec fn from_spec(cli: IndexCli) -> IndexArgs {
        IndexArgs {
            corpus: cli.corpus,
            paths_from: cli.paths_from,
            config: cli.config,
            socket: cli.socket,
        }
    }
}

impl From<GroundCli> for GroundArgs {
    fn from(cli: GroundCli) -> (out: GroundArgs) {
        let format = if cli.full {
            Format::JsonPretty
        } else {
            match cli.format {
                FormatArg::Outline => Format::Outline,
                FormatArg::Json => Format::Json,
                FormatArg::JsonPretty => Format::JsonPretty,
            }
        };
        GroundArgs {
            query: cli.query,
            corpus: cli.corpus,
            format,
            snippet_chars: cli.snippet_chars,
            top_files: cli.top_files,
            chunks_per_file: cli.chunks_per_file,
            limit: cli.limit,
            config: cli.config,
            socket: cli.socket,
        }
    }
}

impl vstd::std_specs::convert::FromSpecImpl<GroundCli> for GroundArgs {
    open spec fn obeys_from_spec() -> bool {
        true
    }

    open spec fn from_spec(cli: GroundCli) -> GroundArgs {
        GroundArgs {
            query: cli.query,
            corpus: cli.corpus,
            format: chosen_format(cli.full, cli.format),
            snippet_chars: cli.snippet_chars,
            top_files: cli.top_files,
            chunks_per_file: cli.chunks_per_file,
            limit: cli.limit,
            config: cli.config,
            socket: cli.socket,
        }
    }
}

/// Results are shown in the format that was asked for, but for `--full`, which
/// shows everything for people to read.
pub proof fn formats_are_as_asked(format: FormatArg)
    ensures
        chosen_format(true, format) is JsonPretty,
        chosen_format(false, format) is Outline <==> format is Outline,
        chosen_format(false, format) is Json <==> format is Json,
        chosen_format(false, format) is JsonPretty <==> format is JsonPretty,
{
}

} // verus!
