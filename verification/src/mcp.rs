//! The tools that a language model uses: what they take, and the text that
//! they answer with.

use vstd::prelude::*;
use vstd::string::StringExecFns;

use crate::daemon::client::DaemonRpcError;
use crate::daemon::ipc::{
    AddMarkdownRequest, AddMarkdownResult, CorpusEntry, CorpusStatsResult, DeleteMarkdownResult,
    ErrorKind, FileEntry, GroundRequest, IndexRequest, LineRange, Position, ReadMarkdownRequest,
    TreeNode,
};
use crate::footnotes::{apply_footnote_mode, get_footnote_target, target_in, with_mode};
use crate::index::{CorpusReport, IndexReport};
use crate::path::{dot_dot, file_name, file_name_of, is_name, joined};
use crate::text::{
    cat2, cat3, cat4, chars_of, decimal, decimal_text, flat, has_prefix, inclusive_lines, join_list,
    join_with, line_text, owned, pad_left, padded, signed_decimal, signed_text, split_lines,
    starts_with, text_between, text_of_line, views,
};

verus! {

/// What becomes of the footnotes in what is shown.
#[derive(Debug, Clone, Copy, PartialEq, Eq, Structural)]
pub enum FootnoteMode {
    /// They stay.
    Include,
    /// They go.
    Exclude,
    /// Only they stay.
    Only,
}

/// A search.
#[derive(Debug)]
pub struct GroundParams {
    pub query: String,
    pub corpus: Option<String>,
    pub top_files: Option<usize>,
    pub chunks_per_file: Option<usize>,
    pub limit: Option<usize>,
    pub snippet_chars: Option<usize>,
    pub footnotes: FootnoteMode,
}

/// What to index; all corpora where none is named.
#[derive(Debug)]
pub struct IndexParams {
    pub corpus: Option<String>,
}

/// Which corpus to report on.
#[derive(Debug)]
pub struct CorpusStatsParams {
    pub corpus: Option<String>,
}

/// Nothing.
#[derive(Debug)]
pub struct ListCorporaParams {}

/// Which corpus to list.
#[derive(Debug)]
pub struct ListFilesParams {
    pub corpus: Option<String>,
}

/// Which corpus to list.
#[derive(Debug)]
pub struct ListTreeParams {
    pub corpus: Option<String>,
}

/// What to write, and where.
#[derive(Debug)]
pub struct AddMarkdownParams {
    pub corpus: String,
    pub path: String,
    pub content: String,
    pub overwrite: bool,
    pub under_heading: Option<String>,
    pub position: Position,
    pub replace_lines: Option<LineRange>,
    pub replace_match: Option<String>,
}

/// What to read, and how to show it.
#[derive(Debug)]
pub struct ReadMarkdownParams {
    pub corpus: String,
    pub path: String,
    pub line_numbers: bool,
    pub footnotes: FootnoteMode,
}

/// What to delete.
#[derive(Debug)]
pub struct DeleteMarkdownParams {
    pub corpus: String,
    pub path: String,
}

/// Which footnote to look up.
#[derive(Debug)]
pub struct GetFootnoteParams {
    pub corpus: Option<String>,
    pub page: String,
    pub footnote_number: String,
}

impl GroundParams {
    /// What the daemon is asked.
    pub fn request(self) -> (out: GroundRequest)
        ensures
            out == (GroundRequest {
                query: self.query,
                corpus: self.corpus,
                top_files: self.top_files,
                chunks_per_file: self.chunks_per_file,
                limit: self.limit,
                snippet_chars: self.snippet_chars,
            }),
    {
        GroundRequest {
            query: self.query,
            corpus: self.corpus,
            top_files: self.top_files,
            chunks_per_file: self.chunks_per_file,
            limit: self.limit,
            snippet_chars: self.snippet_chars,
        }
    }
}

impl IndexParams {
    /// What the daemon is asked: a corpus whose directories are missing is
    /// passed over.
    pub fn request(self) -> (out: IndexRequest)
        ensures
            out == (IndexRequest { corpus: self.corpus, paths_from: None, strict: false }),
    {
        IndexRequest { corpus: self.corpus, paths_from: None, strict: false }
    }
}

impl AddMarkdownParams {
    /// What the daemon is asked.
    pub fn request(self) -> (out: AddMarkdownRequest)
        ensures
            out == (AddMarkdownRequest {
                corpus: self.corpus,
                path: self.path,
                content: self.content,
                overwrite: self.overwrite,
                under_heading: self.under_heading,
                position: self.position,
                replace_lines: self.replace_lines,
                replace_match: self.replace_match,
            }),
    {
        AddMarkdownRequest {
            corpus: self.corpus,
            path: self.path,
            content: self.content,
            overwrite: self.overwrite,
            under_heading: self.under_heading,
            position: self.position,
            replace_lines: self.replace_lines,
            replace_match: self.replace_match,
        }
    }
}

impl GetFootnoteParams {
    /// What the daemon is asked: the page that holds the footnote.
    pub fn request(&self) -> (out: ReadMarkdownRequest)
        ensures
            crate::text::opt_view(out.corpus) == crate::text::opt_view(self.corpus),
            out.path@ == self.page@,
    {
        ReadMarkdownRequest {
            corpus: crate::text::copy_opt(&self.corpus),
            path: self.page.clone(),
        }
    }
}

/// The code of an error of the caller.
pub const INVALID_PARAMS: i32 = -32602;

/// The code of a failure.
pub const INTERNAL_ERROR: i32 = -32603;

/// An error, as the protocol has it.
#[derive(Debug, PartialEq, Eq)]
pub struct ToolError {
    pub code: i32,
    pub message: String,
}

/// The error of a caller.
pub fn invalid_params(msg: &str) -> (out: ToolError)
    ensures
        out.code == INVALID_PARAMS,
        out.message@ == msg@,
{
    ToolError { code: INVALID_PARAMS, message: owned(msg) }
}

/// A failure.
pub fn internal_error(msg: &str) -> (out: ToolError)
    ensures
        out.code == INTERNAL_ERROR,
        out.message@ == msg@,
{
    ToolError { code: INTERNAL_ERROR, message: owned(msg) }
}

/// How a call of the daemon failed.
#[derive(Debug)]
pub enum CallError {
    /// The daemon answered with an error.
    Rpc(DaemonRpcError),
    /// There was no answer, or none that could be understood.
    Transport(String),
}

/// The error that a tool answers with.  Only what the daemon called the
/// caller's error is one; all else is a failure.
pub fn map_daemon_err(err: &CallError) -> (out: ToolError)
    ensures
        match *err {
            CallError::Rpc(e) => out.message@ == e.message@ && out.code == (if e.kind
                == ErrorKind::InvalidParams {
                INVALID_PARAMS
            } else {
                INTERNAL_ERROR
            }),
            CallError::Transport(m) => out.message@ == m@ && out.code == INTERNAL_ERROR,
        },
{
    match err {
        CallError::Rpc(e) => match e.kind {
            ErrorKind::InvalidParams => invalid_params(e.message.as_str()),
            ErrorKind::Internal => internal_error(e.message.as_str()),
        },
        CallError::Transport(m) => internal_error(m.as_str()),
    }
}

/// The structured part of an answer, from what encoding it gave.
pub fn to_structured(encoded: Result<serde_json::Value, String>) -> (out: Result<
    serde_json::Value,
    ToolError,
>)
    ensures
        match encoded {
            Ok(value) => out matches Ok(v) && v == value,
            Err(detail) => out matches Err(e) && e.code == INTERNAL_ERROR && e.message@ == detail@,
        },
{
    match encoded {
        Ok(value) => Ok(value),
        Err(detail) => Err(internal_error(detail.as_str())),
    }
}

/// The path of a root that the client names, where it is one of this machine.
pub open spec fn root_path(uri: Seq<char>) -> Option<Seq<char>> {
    if has_prefix(uri, "file://"@) && uri.len() > 7 {
        Some(uri.skip(7))
    } else {
        None
    }
}

/// The working directory of a request: the first root that the client names,
/// where it names any and the first is a path of this machine; else the
/// directory in which the server was started.
pub open spec fn request_cwd(roots: Option<Seq<Seq<char>>>, fallback: Seq<char>) -> Seq<char> {
    match roots {
        Some(list) => if list.len() == 0 {
            fallback
        } else {
            match root_path(list[0]) {
                Some(path) => path,
                None => fallback,
            }
        },
        None => fallback,
    }
}

/// The model of the roots that a client names.
pub open spec fn roots_view(roots: Option<&Vec<String>>) -> Option<Seq<Seq<char>>> {
    match roots {
        Some(list) => Some(views(list@)),
        None => None,
    }
}

/// The working directory of a request; `roots` is what the client answered when
/// it was asked for its roots, where it can be asked.
pub fn cwd_from_peer(roots: Option<&Vec<String>>, fallback: &str) -> (out: String)
    ensures
        out@ == request_cwd(roots_view(roots), fallback@),
{
    match roots {
        Some(list) => {
            if list.len() > 0 {
                let uri = list[0].as_str();
                proof {
                    reveal_strlit("file://");
                }
                if starts_with(uri, "file://") {
                    let text = chars_of(uri);
                    if text.len() > 7 {
                        let out = text_between(&text, 7, text.len());
                        proof {
                            assert(out@ =~= uri@.skip(7));
                        }
                        return out;
                    }
                }
            }
        },
        None => {},
    }
    owned(fallback)
}

/// Two spaces for each level.
pub open spec fn indent(depth: nat) -> Seq<char>
    decreases depth,
{
    if depth == 0 {
        Seq::empty()
    } else {
        indent((depth - 1) as nat) + "  "@
    }
}

/// The last name of a path, or the path where it has none.
pub open spec fn short_name(path: Seq<char>) -> Seq<char> {
    match file_name(path) {
        Some(name) => name,
        None => path,
    }
}

/// How a directory is shown.
pub open spec fn dir_label(path: Seq<char>) -> Seq<char> {
    if path.len() == 0 {
        "."@
    } else {
        short_name(path)
    }
}

/// The lines of the first `n` files, one for each.
pub open spec fn file_lines(files: Seq<FileEntry>, n: int, depth: nat) -> Seq<char>
    decreases n,
{
    if n <= 0 {
        Seq::empty()
    } else {
        file_lines(files, n - 1, depth) + (indent(depth) + short_name(files[n - 1].path@) + "\n"@)
    }
}

/// The outline of a directory: its name, what is in its directories, and then
/// its files, each level two spaces further in.
pub open spec fn outline(node: TreeNode, depth: nat) -> Seq<char>
    decreases node, 0int,
{
    indent(depth) + dir_label(node.path@) + "/\n"@ + outlines(
        node.subdirs@,
        node.subdirs@.len() as int,
        depth + 1,
    ) + file_lines(node.files@, node.files@.len() as int, depth + 1)
}

/// The outlines of the first `n` directories.
pub open spec fn outlines(nodes: Seq<TreeNode>, n: int, depth: nat) -> Seq<char>
    decreases nodes, n,
{
    if n <= 0 || n > nodes.len() {
        Seq::empty()
    } else {
        outlines(nodes, n - 1, depth) + outline(nodes[n - 1], depth)
    }
}

fn name_of(path: &str) -> (out: String)
    ensures
        out@ == short_name(path@),
{
    match file_name_of(path) {
        Some(name) => name,
        None => owned(path),
    }
}

fn outline_at(node: &TreeNode, Ghost(depth): Ghost<nat>, margin: &str, out: &mut String)
    requires
        margin@ == indent(depth),
    ensures
        final(out)@ == old(out)@ + outline(*node, depth),
    decreases *node,
{
    let ghost start = out@;
    let label = if node.path.as_str().is_empty() {
        owned(".")
    } else {
        name_of(node.path.as_str())
    };
    let head = cat3(margin, label.as_str(), "/\n");
    out.append(head.as_str());
    let deeper = cat2(margin, "  ");
    let ghost inner: nat = (depth + 1) as nat;
    let ghost top = out@;
    proof {
        assert(top + outlines(node.subdirs@, 0, inner) =~= top);
        assert(decreases_to!(*node => node.subdirs));
    }
    for i in 0..node.subdirs.len()
        invariant
            deeper@ == indent(inner),
            out@ == top + outlines(node.subdirs@, i as int, inner),
            decreases_to!(*node => node.subdirs),
    {
        let ghost before = out@;
        proof {
            assert(decreases_to!(node.subdirs => node.subdirs@[i as int]));
        }
        outline_at(&node.subdirs[i], Ghost(inner), deeper.as_str(), out);
        proof {
            assert(out@ =~= top + outlines(node.subdirs@, i + 1, inner));
        }
    }
    let ghost middle = out@;
    proof {
        assert(middle + file_lines(node.files@, 0, inner) =~= middle);
    }
    for i in 0..node.files.len()
        invariant
            deeper@ == indent(inner),
            out@ == middle + file_lines(node.files@, i as int, inner),
    {
        let name = name_of(node.files[i].path.as_str());
        let line = cat3(deeper.as_str(), name.as_str(), "\n");
        out.append(line.as_str());
        proof {
            assert(out@ =~= middle + file_lines(node.files@, i + 1, inner));
        }
    }
    proof {
        assert(out@ =~= start + outline(*node, depth));
    }
}

/// Adds the outline of a directory at the given depth.
pub fn render_tree_outline(node: &TreeNode, depth: usize, out: &mut String)
    ensures
        final(out)@ == old(out)@ + outline(*node, depth as nat),
{
    let mut margin = String::new();
    for i in 0..depth
        invariant
            margin@ == indent(i as nat),
    {
        margin.append("  ");
    }
    outline_at(node, Ghost(depth as nat), margin.as_str(), out);
}

/// The first `n` lines with their numbers in front, in a column of six.
pub open spec fn numbered(lines: Seq<Seq<char>>, n: int) -> Seq<char>
    decreases n,
{
    if n <= 0 {
        Seq::empty()
    } else {
        numbered(lines, n - 1) + (padded(decimal(n as nat), 6) + "\t"@ + line_text(lines[n - 1])
            + "\n"@)
    }
}

/// The content with the number of each line in front of it.
pub fn number_lines(content: &str) -> (out: String)
    ensures
        out@ == numbered(
            inclusive_lines(content@),
            inclusive_lines(content@).len() as int,
        ),
{
    let lines = split_lines(content);
    let ghost all = inclusive_lines(content@);
    let mut out = String::new();
    for i in 0..lines.len()
        invariant
            all == inclusive_lines(content@),
            views(lines@) == all,
            out@ == numbered(all, i as int),
    {
        let ghost before = out@;
        let number = pad_left(decimal_text(i as u64 + 1).as_str(), 6);
        let body = text_of_line(lines[i].as_str());
        let line = cat4(number.as_str(), "\t", body.as_str(), "\n");
        proof {
            assert(all[i as int] == lines@[i as int]@);
        }
        out.append(line.as_str());
    }
    out
}

/// The text of a file that was read, with or without the numbers of its lines.
pub fn read_text(body: String, line_numbers: bool) -> (out: String)
    ensures
        line_numbers ==> out@ == numbered(
            inclusive_lines(body@),
            inclusive_lines(body@).len() as int,
        ),
        !line_numbers ==> out == body,
{
    if line_numbers {
        number_lines(body.as_str())
    } else {
        body
    }
}

/// The text that a request to read is answered with: the page as the mode shows
/// it, with or without the numbers of its lines.
pub fn read_markdown_text(content: &str, mode: FootnoteMode, line_numbers: bool) -> (out: String)
    ensures
        ({
            let body = with_mode(content@, mode);
            out@ == if line_numbers {
                numbered(inclusive_lines(body), inclusive_lines(body).len() as int)
            } else {
                body
            }
        }),
{
    read_text(apply_footnote_mode(content, mode), line_numbers)
}

/// What is said of a corpus that was indexed.
pub open spec fn report_line(report: CorpusReport) -> Seq<char> {
    report.name@ + ": upserted="@ + decimal(report.files_upserted as nat) + " touched="@ + decimal(
        report.files_touched as nat,
    ) + " deleted="@ + decimal(report.files_deleted as nat) + " chunks+="@ + decimal(
        report.chunks_inserted as nat,
    )
}

/// What is said of each corpus that was indexed.
pub open spec fn report_lines(reports: Seq<CorpusReport>) -> Seq<Seq<char>> {
    Seq::new(reports.len(), |i: int| report_line(reports[i]))
}

/// What is said of the corpora that were indexed, each on a line.
pub fn index_summary(report: &IndexReport) -> (out: String)
    ensures
        out@ == join_with(report_lines(report.corpora@), "\n"@),
{
    let mut lines: Vec<String> = Vec::new();
    for i in 0..report.corpora.len()
        invariant
            views(lines@) == report_lines(report.corpora@).take(i as int),
    {
        let c = &report.corpora[i];
        let ghost before = views(lines@);
        let mut line = cat2(c.name.as_str(), ": upserted=");
        line.append(decimal_text(c.files_upserted as u64).as_str());
        line.append(" touched=");
        line.append(decimal_text(c.files_touched as u64).as_str());
        line.append(" deleted=");
        line.append(decimal_text(c.files_deleted as u64).as_str());
        line.append(" chunks+=");
        line.append(decimal_text(c.chunks_inserted as u64).as_str());
        lines.push(line);
        proof {
            let all = report_lines(report.corpora@);
            assert(views(lines@) =~= before.push(all[i as int]));
            assert(all.take(i + 1) =~= before.push(all[i as int]));
        }
    }
    proof {
        let all = report_lines(report.corpora@);
        assert(all.take(all.len() as int) =~= all);
    }
    join_list(&lines, "\n")
}

/// The paths of the first `n` files, each on a line.
pub open spec fn path_lines(entries: Seq<FileEntry>, n: int) -> Seq<char>
    decreases n,
{
    if n <= 0 {
        Seq::empty()
    } else {
        let before = path_lines(entries, n - 1);
        if before.len() == 0 {
            entries[n - 1].path@
        } else {
            before + "\n"@ + entries[n - 1].path@
        }
    }
}

/// The paths of the files, each on a line.
pub fn list_files_text(entries: &Vec<FileEntry>) -> (out: String)
    ensures
        out@ == path_lines(entries@, entries@.len() as int),
{
    let mut text = String::new();
    for i in 0..entries.len()
        invariant
            text@ == path_lines(entries@, i as int),
    {
        let ghost before = text@;
        if !text.as_str().is_empty() {
            text.append("\n");
        }
        text.append(entries[i].path.as_str());
        proof {
            if before.len() == 0 {
                assert(text@ =~= entries@[i as int].path@);
            }
        }
    }
    text
}

/// The names of the corpora.
pub open spec fn entry_names(entries: Seq<CorpusEntry>) -> Seq<Seq<char>> {
    Seq::new(entries.len(), |i: int| entries[i].name@)
}

/// The names of the corpora, each on a line.
pub fn list_corpora_text(entries: &Vec<CorpusEntry>) -> (out: String)
    ensures
        out@ == join_with(entry_names(entries@), "\n"@),
{
    let mut names: Vec<String> = Vec::new();
    for i in 0..entries.len()
        invariant
            views(names@) == entry_names(entries@).take(i as int),
    {
        let ghost before = views(names@);
        names.push(entries[i].name.clone());
        proof {
            let all = entry_names(entries@);
            assert(views(names@) =~= before.push(all[i as int]));
            assert(all.take(i + 1) =~= before.push(all[i as int]));
        }
    }
    proof {
        let all = entry_names(entries@);
        assert(all.take(all.len() as int) =~= all);
    }
    join_list(&names, "\n")
}

/// The first `n` remarks, each on a line of a list.
pub open spec fn bullets(warnings: Seq<Seq<char>>, n: int) -> Seq<char>
    decreases n,
{
    if n <= 0 {
        Seq::empty()
    } else {
        bullets(warnings, n - 1) + ("\n- "@ + warnings[n - 1])
    }
}

/// What is said of a file that was written.
pub open spec fn wrote_message(
    path: Seq<char>,
    corpus: Seq<char>,
    warnings: Seq<Seq<char>>,
) -> Seq<char> {
    let head = "wrote "@ + path + " and refreshed corpus "@ + corpus;
    if warnings.len() == 0 {
        head
    } else {
        head + "\n\nlint warnings (advisory, file was written as-is):"@ + bullets(
            warnings,
            warnings.len() as int,
        )
    }
}

/// What is said of a file that was written: with the remarks on it, if there
/// are any.
pub fn add_markdown_text(response: &AddMarkdownResult) -> (out: String)
    ensures
        out@ == wrote_message(response.path@, response.corpus@, views(response.warnings@)),
{
    let mut text = cat4(
        "wrote ",
        response.path.as_str(),
        " and refreshed corpus ",
        response.corpus.as_str(),
    );
    if response.warnings.len() > 0 {
        text.append("\n\nlint warnings (advisory, file was written as-is):");
        let ghost head = text@;
        let ghost all = views(response.warnings@);
        proof {
            assert(head + bullets(all, 0) =~= head);
        }
        for i in 0..response.warnings.len()
            invariant
                all == views(response.warnings@),
                text@ == head + bullets(all, i as int),
        {
            let line = cat2("\n- ", response.warnings[i].as_str());
            proof {
                assert(all[i as int] == response.warnings@[i as int]@);
            }
            text.append(line.as_str());
            proof {
                assert(text@ =~= head + bullets(all, i + 1));
            }
        }
    }
    text
}

/// What is said of a file that was deleted.
pub fn delete_markdown_text(response: &DeleteMarkdownResult) -> (out: String)
    ensures
        out@ == "deleted "@ + response.path@ + " from corpus "@ + response.corpus@,
{
    cat4("deleted ", response.path.as_str(), " from corpus ", response.corpus.as_str())
}

/// How a time that may be missing is shown.
pub open spec fn time_shown(ms: Option<i64>) -> Seq<char> {
    match ms {
        Some(n) => signed_decimal(n as int),
        None => "null"@,
    }
}

/// What is said of how well a corpus is indexed.
pub fn corpus_stats_text(result: &CorpusStatsResult) -> (out: String)
    ensures
        out@ == "corpus: "@ + result.corpus@ + "\nindexed_files: "@ + decimal(
            result.indexed_files as nat,
        ) + "\ntotal_chunks: "@ + decimal(result.total_chunks as nat) + "\nlast_indexed_ms: "@
            + time_shown(result.last_indexed_ms) + "\nunindexed_files: "@ + decimal(
            result.unindexed_files as nat,
        ),
{
    let mut text = cat3("corpus: ", result.corpus.as_str(), "\nindexed_files: ");
    text.append(decimal_text(result.indexed_files).as_str());
    text.append("\ntotal_chunks: ");
    text.append(decimal_text(result.total_chunks).as_str());
    text.append("\nlast_indexed_ms: ");
    match result.last_indexed_ms {
        Some(ms) => {
            text.append(signed_text(ms).as_str());
        },
        None => {
            text.append("null");
        },
    }
    text.append("\nunindexed_files: ");
    text.append(decimal_text(result.unindexed_files).as_str());
    text
}

/// The footnote that was looked up, or the error of the caller where the page
/// has none of that name.
pub fn footnote_text(target: Option<String>, label: &str, page: &str) -> (out: Result<
    String,
    ToolError,
>)
    ensures
        match target {
            Some(text) => out matches Ok(t) && t == text,
            None => out matches Err(e) && e.code == INVALID_PARAMS && e.message@ == "footnote [^"@
                + label@ + "] not found in "@ + page@,
        },
{
    match target {
        Some(text) => Ok(text),
        None => Err(
            invalid_params(cat4("footnote [^", label, "] not found in ", page).as_str()),
        ),
    }
}

/// The answer to a request for a footnote of a page with the given content.
pub fn get_footnote(content: &str, label: &str, page: &str) -> (out: Result<String, ToolError>)
    ensures
        match target_in(inclusive_lines(content@), label@) {
            Some(text) => out matches Ok(t) && t@ == text,
            None => out matches Err(e) && e.code == INVALID_PARAMS && e.message@ == "footnote [^"@
                + label@ + "] not found in "@ + page@,
        },
{
    footnote_text(get_footnote_target(content, label), label, page)
}

/// As many spaces.
pub open spec fn blanks(n: nat) -> Seq<char> {
    Seq::new(n, |i: int| ' ')
}

proof fn flat_of_one_more(parts: Seq<Seq<char>>, part: Seq<char>)
    ensures
        flat(parts.push(part)) == flat(parts) + part,
{
    assert(parts.push(part).drop_last() =~= parts);
}

proof fn levels_are_two_blanks(depth: nat)
    ensures
        indent(depth) == blanks(2 * depth),
    decreases depth,
{
    reveal_strlit("  ");
    if depth > 0 {
        levels_are_two_blanks((depth - 1) as nat);
    }
    assert(indent(depth) =~= blanks(2 * depth));
}

proof fn files_have_their_lines(files: Seq<FileEntry>, n: int, depth: nat)
    requires
        0 <= n <= files.len(),
    ensures
        file_lines(files, n, depth) == flat(
            Seq::new(n as nat, |i: int| blanks(2 * depth) + short_name(files[i].path@) + "\n"@),
        ),
    decreases n,
{
    let lines = Seq::new(
        n as nat,
        |i: int| blanks(2 * depth) + short_name(files[i].path@) + "\n"@,
    );
    levels_are_two_blanks(depth);
    if n > 0 {
        files_have_their_lines(files, n - 1, depth);
        let front = Seq::new(
            (n - 1) as nat,
            |i: int| blanks(2 * depth) + short_name(files[i].path@) + "\n"@,
        );
        let last = blanks(2 * depth) + short_name(files[n - 1].path@) + "\n"@;
        assert(lines =~= front.push(last));
        flat_of_one_more(front, last);
    }
}

proof fn directories_have_their_outlines(nodes: Seq<TreeNode>, n: int, depth: nat)
    requires
        0 <= n <= nodes.len(),
    ensures
        outlines(nodes, n, depth) == flat(
            Seq::new(n as nat, |i: int| outline(nodes[i], depth)),
        ),
    decreases n,
{
    let parts = Seq::new(n as nat, |i: int| outline(nodes[i], depth));
    if n > 0 {
        directories_have_their_outlines(nodes, n - 1, depth);
        let front = Seq::new((n - 1) as nat, |i: int| outline(nodes[i], depth));
        assert(parts =~= front.push(outline(nodes[n - 1], depth)));
        flat_of_one_more(front, outline(nodes[n - 1], depth));
    }
}

/// An outline shows a directory, then every directory in it, and then every
/// file in it, each on a line of its own; what is in a directory stands two
/// spaces further in than the directory.
pub proof fn outlines_show_all_that_is_there(node: TreeNode, depth: nat)
    ensures
        outline(node, depth) == blanks(2 * depth) + (if node.path@.len() == 0 {
            "."@
        } else {
            short_name(node.path@)
        }) + "/\n"@ + flat(
            Seq::new(node.subdirs@.len(), |i: int| outline(node.subdirs@[i], depth + 1)),
        ) + flat(
            Seq::new(
                node.files@.len(),
                |i: int| blanks(2 * depth + 2) + short_name(node.files@[i].path@) + "\n"@,
            ),
        ),
{
    levels_are_two_blanks(depth);
    directories_have_their_outlines(node.subdirs@, node.subdirs@.len() as int, depth + 1);
    files_have_their_lines(node.files@, node.files@.len() as int, depth + 1);
    assert(Seq::new(
        node.files@.len(),
        |i: int| blanks(2 * (depth + 1)) + short_name(node.files@[i].path@) + "\n"@,
    ) =~= Seq::new(
        node.files@.len(),
        |i: int| blanks(2 * depth + 2) + short_name(node.files@[i].path@) + "\n"@,
    ));
}

/// What is shown of a path is its last name.
pub proof fn outlines_show_last_names(dir: Seq<char>, name: Seq<char>)
    requires
        is_name(name),
        name != dot_dot(),
        !name.contains('/'),
    ensures
        short_name(joined(dir, name)) == name,
{
    crate::path::last_names_are_those_put_last(dir, name);
}

/// Every line is shown behind its own number, counted from one, and a tab; the
/// number stands at the end of a column of six.
pub proof fn lines_are_shown_behind_their_numbers(lines: Seq<Seq<char>>, n: int)
    requires
        0 <= n <= lines.len(),
    ensures
        numbered(lines, n) == flat(
            Seq::new(
                n as nat,
                |i: int|
                    blanks(
                        if decimal((i + 1) as nat).len() < 6 {
                            (6 - decimal((i + 1) as nat).len()) as nat
                        } else {
                            0
                        },
                    ) + decimal((i + 1) as nat) + "\t"@ + line_text(lines[i]) + "\n"@,
            ),
        ),
    decreases n,
{
    let shown = |i: int|
        blanks(
            if decimal((i + 1) as nat).len() < 6 {
                (6 - decimal((i + 1) as nat).len()) as nat
            } else {
                0
            },
        ) + decimal((i + 1) as nat) + "\t"@ + line_text(lines[i]) + "\n"@;
    if n > 0 {
        lines_are_shown_behind_their_numbers(lines, n - 1);
        let front = Seq::new((n - 1) as nat, shown);
        assert(Seq::new(n as nat, shown) =~= front.push(shown(n - 1)));
        flat_of_one_more(front, shown(n - 1));
        column_is_filled_with_blanks(decimal(n as nat), 6);
    }
}

proof fn column_is_filled_with_blanks(s: Seq<char>, width: nat)
    ensures
        padded(s, width) == blanks(
            if s.len() < width {
                (width - s.len()) as nat
            } else {
                0
            },
        ) + s,
    decreases width - s.len(),
{
    if s.len() >= width {
        assert(blanks(0) + s =~= s);
    } else {
        column_is_filled_with_blanks(seq![' '] + s, width);
        assert(blanks((width - s.len() - 1) as nat) + (seq![' '] + s) =~= blanks(
            (width - s.len()) as nat,
        ) + s);
    }
}

/// What is said of a corpus names it and gives its counts, each behind its own
/// word.
pub proof fn reports_give_every_count(reports: Seq<CorpusReport>, i: int)
    requires
        0 <= i < reports.len(),
    ensures
        report_lines(reports).len() == reports.len(),
        report_lines(reports)[i] == flat(
            seq![
                reports[i].name@,
                ": upserted="@,
                decimal(reports[i].files_upserted as nat),
                " touched="@,
                decimal(reports[i].files_touched as nat),
                " deleted="@,
                decimal(reports[i].files_deleted as nat),
                " chunks+="@,
                decimal(reports[i].chunks_inserted as nat),
            ],
        ),
{
    let r = reports[i];
    let none = Seq::<Seq<char>>::empty();
    let p1 = none.push(r.name@);
    let p2 = p1.push(": upserted="@);
    let p3 = p2.push(decimal(r.files_upserted as nat));
    let p4 = p3.push(" touched="@);
    let p5 = p4.push(decimal(r.files_touched as nat));
    let p6 = p5.push(" deleted="@);
    let p7 = p6.push(decimal(r.files_deleted as nat));
    let p8 = p7.push(" chunks+="@);
    let p9 = p8.push(decimal(r.chunks_inserted as nat));
    flat_of_one_more(none, r.name@);
    flat_of_one_more(p1, ": upserted="@);
    flat_of_one_more(p2, decimal(r.files_upserted as nat));
    flat_of_one_more(p3, " touched="@);
    flat_of_one_more(p4, decimal(r.files_touched as nat));
    flat_of_one_more(p5, " deleted="@);
    flat_of_one_more(p6, decimal(r.files_deleted as nat));
    flat_of_one_more(p7, " chunks+="@);
    flat_of_one_more(p8, decimal(r.chunks_inserted as nat));
    assert(flat(none) + r.name@ =~= r.name@);
    assert(flat(p9) == report_line(r));
    assert(p9 =~= seq![
        r.name@,
        ": upserted="@,
        decimal(r.files_upserted as nat),
        " touched="@,
        decimal(r.files_touched as nat),
        " deleted="@,
        decimal(r.files_deleted as nat),
        " chunks+="@,
        decimal(r.chunks_inserted as nat),
    ]);
}

/// A list of files holds the path of every one of them, in their order, one on
/// each line.
pub proof fn every_path_is_listed(entries: Seq<FileEntry>, n: int)
    requires
        0 <= n <= entries.len(),
        forall|i: int| 0 <= i < entries.len() ==> (#[trigger] entries[i]).path@.len() > 0,
    ensures
        path_lines(entries, n) == join_with(
            Seq::new(n as nat, |i: int| entries[i].path@),
            "\n"@,
        ),
        path_lines(entries, n).len() == 0 ==> n == 0,
    decreases n,
{
    let paths = Seq::new(n as nat, |i: int| entries[i].path@);
    if n > 0 {
        every_path_is_listed(entries, n - 1);
        assert(paths.drop_last() =~= Seq::new((n - 1) as nat, |i: int| entries[i].path@));
        assert(entries[n - 1].path@.len() > 0);
    }
}

/// A list of corpora holds the name of every one of them, in their order.
pub proof fn every_corpus_is_listed(entries: Seq<CorpusEntry>)
    ensures
        entry_names(entries).len() == entries.len(),
        forall|i: int| 0 <= i < entries.len() ==> #[trigger] entry_names(entries)[i]
            == entries[i].name@,
{
}

proof fn remarks_are_listed(warnings: Seq<Seq<char>>, n: int)
    requires
        0 <= n <= warnings.len(),
    ensures
        bullets(warnings, n) == flat(Seq::new(n as nat, |i: int| "\n- "@ + warnings[i])),
    decreases n,
{
    let lines = Seq::new(n as nat, |i: int| "\n- "@ + warnings[i]);
    if n > 0 {
        remarks_are_listed(warnings, n - 1);
        let front = Seq::new((n - 1) as nat, |i: int| "\n- "@ + warnings[i]);
        assert(lines =~= front.push("\n- "@ + warnings[n - 1]));
        flat_of_one_more(front, "\n- "@ + warnings[n - 1]);
    }
}

/// What is said of a file that was written names the file and its corpus, and
/// holds every remark on it, in their order; without a remark it says no more.
pub proof fn every_remark_is_said(
    path: Seq<char>,
    corpus: Seq<char>,
    warnings: Seq<Seq<char>>,
)
    ensures
        wrote_message(path, corpus, warnings) == "wrote "@ + path + " and refreshed corpus "@
            + corpus + (if warnings.len() == 0 {
            Seq::empty()
        } else {
            "\n\nlint warnings (advisory, file was written as-is):"@ + flat(
                Seq::new(warnings.len(), |i: int| "\n- "@ + warnings[i]),
            )
        }),
{
    remarks_are_listed(warnings, warnings.len() as int);
    let head = "wrote "@ + path + " and refreshed corpus "@ + corpus;
    if warnings.len() == 0 {
        assert(head + Seq::<char>::empty() =~= head);
    } else {
        let list = flat(Seq::new(warnings.len(), |i: int| "\n- "@ + warnings[i]));
        let word = "\n\nlint warnings (advisory, file was written as-is):"@;
        assert(head + word + list =~= head + (word + list));
    }
}

/// A request is served in the first directory that the client names, however
/// many it names; and where it names none, or the first is no path of this
/// machine, in the directory in which the server was started.
pub proof fn requests_are_served_where_the_client_is(
    path: Seq<char>,
    others: Seq<Seq<char>>,
    fallback: Seq<char>,
)
    ensures
        path.len() > 0 ==> request_cwd(Some(seq!["file://"@ + path] + others), fallback) == path,
        request_cwd(Some(seq!["file://"@] + others), fallback) == fallback,
        request_cwd(None, fallback) == fallback,
        request_cwd(Some(Seq::empty()), fallback) == fallback,
        !(exists|rest: Seq<char>| path == #[trigger] ("file://"@ + rest)) ==> request_cwd(
            Some(seq![path] + others),
            fallback,
        ) == fallback,
{
    reveal_strlit("file://");
    let uri = "file://"@ + path;
    assert(uri.take(7) =~= "file://"@);
    assert(uri.skip(7) =~= path);
    assert((seq![uri] + others)[0] == uri);
    assert((seq!["file://"@] + others)[0] == "file://"@);
    assert((seq![path] + others)[0] == path);
    if has_prefix(path, "file://"@) {
        assert(path =~= "file://"@ + path.skip(7));
    }
}

/// A time is shown as its number, and the lack of one as nothing known.
pub proof fn times_are_shown_as_numbers(ms: i64)
    ensures
        time_shown(None) == "null"@,
        ms >= 0 ==> time_shown(Some(ms)) == decimal(ms as nat),
        ms < 0 ==> time_shown(Some(ms)) == "-"@ + decimal((-ms) as nat),
{
    if ms >= 0 {
        crate::text::signs_stand_before_numbers(ms as nat);
    } else {
        crate::text::signs_stand_before_numbers((-ms) as nat);
    }
}

} // verus!
