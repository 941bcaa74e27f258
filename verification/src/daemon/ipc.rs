//! What the daemon is asked and what it answers.

use vstd::prelude::*;

use crate::index::IndexReport;
use crate::text::{cat2, opt_str_view, opt_view, owned, same};

verus! {

/// The version of the library, which a client compares with the daemon's.
pub const VERSION: &'static str = "0.1.0";

/// A request, with the working directory of the client.
#[derive(Debug, Clone)]
pub struct DaemonRequest {
    pub cwd: String,
    pub payload: DaemonRequestPayload,
}

/// What is asked.
#[derive(Debug, Clone)]
pub enum DaemonRequestPayload {
    /// Is there a daemon, and of which version?
    Ping,
    /// Search.
    Ground(GroundRequest),
    /// Index corpora anew.
    Index(IndexRequest),
    /// Which corpora are there?
    ListCorpora,
    /// How well is a corpus indexed?
    CorpusStats { corpus: Option<String> },
    /// Which files does a corpus hold?
    ListFiles(ListFilesRequest),
    /// Which files does a corpus hold, directory by directory?
    ListTree(ListTreeRequest),
    /// Write a file of a corpus.
    AddMarkdown(AddMarkdownRequest),
    /// Read a file of a corpus.
    ReadMarkdown(ReadMarkdownRequest),
    /// Delete a file of a corpus.
    DeleteMarkdown(DeleteMarkdownRequest),
    /// Copy a file of a corpus into the shared one.
    GlobalizeMarkdown(GlobalizeMarkdownRequest),
    /// Stop.
    Shutdown,
}

/// A search.
#[derive(Debug, Clone)]
pub struct GroundRequest {
    pub query: String,
    pub corpus: Option<String>,
    pub top_files: Option<usize>,
    pub chunks_per_file: Option<usize>,
    pub limit: Option<usize>,
    pub snippet_chars: Option<usize>,
}

/// Which corpora to index.
#[derive(Debug, Clone)]
pub struct IndexRequest {
    pub corpus: Option<String>,
    pub paths_from: Option<String>,
    /// Whether a corpus whose directories are missing is an error.
    pub strict: bool,
}

/// Which corpus to list.
#[derive(Debug, Clone)]
pub struct ListFilesRequest {
    pub corpus: Option<String>,
}

/// Which corpus to list.
#[derive(Debug, Clone)]
pub struct ListTreeRequest {
    pub corpus: Option<String>,
}

/// Where in a section a fragment goes.
#[derive(Debug, Clone, Copy, PartialEq, Eq, Structural, Default)]
pub enum Position {
    /// At the end of the section.
    #[default]
    Append,
    /// Right after the heading.
    Prepend,
}

/// Some lines, counted from one, the last of them included.
#[derive(Debug, Clone, Copy, PartialEq, Eq, Structural)]
pub struct LineRange {
    pub start: usize,
    pub end: usize,
}

/// What to write, and where.
#[derive(Debug, Clone)]
pub struct AddMarkdownRequest {
    pub corpus: String,
    pub path: String,
    /// The whole file, or what an edit puts into it.
    pub content: String,
    /// Whether a file that is there is replaced; an edit replaces it always.
    pub overwrite: bool,
    /// The heading into whose section the content goes.
    pub under_heading: Option<String>,
    /// Where in that section it goes.
    pub position: Position,
    /// The lines in whose place the content goes.
    pub replace_lines: Option<LineRange>,
    /// The text in whose place the content goes.
    pub replace_match: Option<String>,
}

/// What to read.
#[derive(Debug, Clone)]
pub struct ReadMarkdownRequest {
    pub corpus: Option<String>,
    pub path: String,
}

/// What to delete.
#[derive(Debug, Clone)]
pub struct DeleteMarkdownRequest {
    pub corpus: String,
    pub path: String,
}

/// What to copy into the shared corpus.
#[derive(Debug, Clone)]
pub struct GlobalizeMarkdownRequest {
    pub source_corpus: String,
    pub path: String,
    pub dest_path: Option<String>,
    pub overwrite: bool,
}

/// Whose fault an error is.
#[derive(Debug, Clone, Copy, PartialEq, Eq, Structural)]
pub enum ErrorKind {
    /// The request cannot be met as it stands.
    InvalidParams,
    /// The daemon failed.
    Internal,
}

/// A JSON value of `serde_json`.
#[verifier::external_type_specification]
#[verifier::external_body]
pub struct ExValue(serde_json::Value);

/// The text members of a JSON object; none where the value is no object.
pub uninterp spec fn text_fields(value: serde_json::Value) -> Map<Seq<char>, Seq<char>>;

/// The text that a JSON value is; none where it is no text.
pub uninterp spec fn lone_text(value: serde_json::Value) -> Option<Seq<char>>;

/// No members.
pub open spec fn no_fields() -> Map<Seq<char>, Seq<char>> {
    Map::empty()
}

/// One member.
pub open spec fn one_field(name: Seq<char>, text: Seq<char>) -> Map<Seq<char>, Seq<char>> {
    no_fields().insert(name, text)
}

/// `get` and `as_str` of `serde_json::Value`: the member of that name, where
/// the value is an object and the member a text.
#[verifier::external_body]
fn text_field(value: &serde_json::Value, name: &str) -> (out: Option<String>)
    ensures
        opt_view(out) == (if text_fields(*value).dom().contains(name@) {
            Some(text_fields(*value)[name@])
        } else {
            None
        }),
{
    value.get(name).and_then(serde_json::Value::as_str).map(str::to_owned)
}

/// `Map::insert` of `serde_json` on a new map, and `Value::Object`: the object
/// with that one text member, which is no text itself.
#[verifier::external_body]
fn object_of_text(name: &str, text: &str) -> (out: serde_json::Value)
    ensures
        text_fields(out) == one_field(name@, text@),
        lone_text(out) is None,
{
    let mut members = serde_json::Map::new();
    members.insert(name.to_owned(), serde_json::Value::String(text.to_owned()));
    serde_json::Value::Object(members)
}

/// `Value::String` of `serde_json`: the text, which has no members.
#[verifier::external_body]
fn value_of_text(text: &str) -> (out: serde_json::Value)
    ensures
        text_fields(out) == no_fields(),
        lone_text(out) == Some(text@),
{
    serde_json::Value::String(text.to_owned())
}

/// The answer to a request.
#[derive(Debug)]
pub enum DaemonResponse {
    /// It was done; this is what came of it.
    Success { result: serde_json::Value },
    /// It was not done.
    Failure { kind: ErrorKind, message: String },
}

/// Whether the answer is the error with the given message.
pub open spec fn is_error(out: DaemonResponse, kind: ErrorKind, text: Seq<char>) -> bool {
    out matches DaemonResponse::Failure { kind: k, message } && k == kind && message@ == text
}

/// Whether the result is the error of the caller with the given message.
pub open spec fn refused<T>(out: Result<T, DaemonResponse>, text: Seq<char>) -> bool {
    out matches Err(response) && is_error(response, ErrorKind::InvalidParams, text)
}

/// Whether the result is the failure of the daemon with the given message.
pub open spec fn failed<T>(out: Result<T, DaemonResponse>, text: Seq<char>) -> bool {
    out matches Err(response) && is_error(response, ErrorKind::Internal, text)
}

impl DaemonResponse {
    /// The answer with a result, from what encoding the result gave.  A result
    /// that cannot be encoded is a failure, never an empty success.
    pub fn ok(encoded: Result<serde_json::Value, String>) -> (out: DaemonResponse)
        ensures
            match encoded {
                Ok(value) => out == (DaemonResponse::Success { result: value }),
                Err(detail) => is_error(
                    out,
                    ErrorKind::Internal,
                    "serialize response: "@ + detail@,
                ),
            },
    {
        match encoded {
            Ok(result) => DaemonResponse::Success { result },
            Err(detail) => DaemonResponse::internal(
                cat2("serialize response: ", detail.as_str()).as_str(),
            ),
        }
    }

    /// The error of a caller.
    pub fn invalid_params(msg: &str) -> (out: DaemonResponse)
        ensures
            is_error(out, ErrorKind::InvalidParams, msg@),
    {
        DaemonResponse::Failure { kind: ErrorKind::InvalidParams, message: owned(msg) }
    }

    /// The failure of the daemon.
    pub fn internal(msg: &str) -> (out: DaemonResponse)
        ensures
            is_error(out, ErrorKind::Internal, msg@),
    {
        DaemonResponse::Failure { kind: ErrorKind::Internal, message: owned(msg) }
    }
}

/// The answer to a ping: an object that names the version.
pub fn pong_value(version: &str) -> (out: serde_json::Value)
    ensures
        text_fields(out) == one_field("version"@, version@),
        lone_text(out) is None,
{
    object_of_text("version", version)
}

/// The answer to a request to stop.
pub fn stopping_value() -> (out: serde_json::Value)
    ensures
        text_fields(out) == no_fields(),
        lone_text(out) == Some("stopping"@),
{
    value_of_text("stopping")
}

/// Whether the answer names the given version.
pub open spec fn reports_version(resp: DaemonResponse, version: Seq<char>) -> bool {
    resp matches DaemonResponse::Success { result } && text_fields(result).dom().contains("version"@)
        && text_fields(result)["version"@] == version
}

/// Whether the version that an answer names, if it names one, is this one.
pub fn is_our_version(named: Option<&str>) -> (out: bool)
    ensures
        out == (opt_str_view(named) == Some(VERSION@)),
{
    match named {
        Some(version) => same(version, VERSION),
        None => false,
    }
}

/// Whether the answer to a ping names this version.  An error, an answer that
/// names none and one that names another do not: such a daemon is replaced.
pub fn pong_reports_our_version(resp: &DaemonResponse) -> (out: bool)
    ensures
        out == reports_version(*resp, VERSION@),
{
    match resp {
        DaemonResponse::Success { result } => match text_field(result, "version") {
            Some(version) => is_our_version(Some(version.as_str())),
            None => is_our_version(None),
        },
        DaemonResponse::Failure { kind, message } => false,
    }
}

/// A daemon is taken for one of this version exactly when its answer names it.
pub proof fn own_pong_is_recognized(result: serde_json::Value, version: Seq<char>)
    requires
        text_fields(result) == one_field("version"@, version),
    ensures
        reports_version(DaemonResponse::Success { result }, VERSION@) <==> version == VERSION@,
{
}

/// How well a corpus is indexed.
#[derive(Debug, Clone, PartialEq, Eq)]
pub struct CorpusStatsResult {
    pub corpus: String,
    pub indexed_files: u64,
    pub total_chunks: u64,
    /// When it was last indexed, in milliseconds; none where it never was.
    pub last_indexed_ms: Option<i64>,
    pub unindexed_files: u64,
}

/// A corpus, as it is listed.
#[derive(Debug, Clone, PartialEq, Eq)]
pub struct CorpusEntry {
    pub name: String,
    pub paths: Vec<String>,
}

/// What a search found; `R` is what it found, in full.
#[derive(Debug, Clone)]
pub struct GroundResult<R> {
    pub outline: String,
    pub response: R,
}

/// What came of writing a file.
#[derive(Debug, Clone)]
pub struct AddMarkdownResult {
    pub corpus: String,
    pub path: String,
    pub absolute_path: String,
    pub indexed: IndexReport,
    /// What the author may want to mend.
    pub warnings: Vec<String>,
}

/// A file that was read.
#[derive(Debug, Clone)]
pub struct ReadMarkdownResult {
    pub corpus: String,
    pub path: String,
    pub absolute_path: String,
    pub content: String,
    pub bytes: u64,
}

/// What came of deleting a file.
#[derive(Debug, Clone)]
pub struct DeleteMarkdownResult {
    pub corpus: String,
    pub path: String,
    pub absolute_path: String,
    pub file_ref: String,
}

/// What came of copying a file into the shared corpus.
#[derive(Debug, Clone)]
pub struct GlobalizeMarkdownResult {
    pub source_corpus: String,
    pub source_path: String,
    pub global_corpus: String,
    pub dest_path: String,
    pub absolute_path: String,
    pub indexed: IndexReport,
}

/// A file of a corpus.
#[derive(Debug, Clone, PartialEq, Eq)]
pub struct FileEntry {
    pub path: String,
    pub absolute_path: String,
}

/// A directory of a corpus.
#[derive(Debug, PartialEq, Eq)]
pub struct TreeNode {
    pub path: String,
    pub absolute_path: String,
    pub files: Vec<FileEntry>,
    pub subdirs: Vec<TreeNode>,
}

/// The directories of a corpus.
#[derive(Debug)]
pub struct ListTreeResult {
    pub corpus: String,
    pub root: TreeNode,
}

/// The files of a corpus.
pub type ListFilesResult = Vec<FileEntry>;

/// The corpora.
pub type ListCorporaResult = Vec<CorpusEntry>;

/// What is refused is the matter of the caller, and what failed is not; both
/// carry their message.
pub proof fn errors_carry_their_kind_and_message<T>(
    out: Result<T, DaemonResponse>,
    text: Seq<char>,
)
    ensures
        refused(out, text) ==> (out matches Err(DaemonResponse::Failure { kind, message }) && kind
            == ErrorKind::InvalidParams && message@ == text),
        failed(out, text) ==> (out matches Err(DaemonResponse::Failure { kind, message }) && kind
            == ErrorKind::Internal && message@ == text),
        out is Ok ==> !refused(out, text) && !failed(out, text),
{
}

} // verus!
