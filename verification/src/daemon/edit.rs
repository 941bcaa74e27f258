//! Edits of a page that is there: a fragment below a heading, other lines for
//! some lines, another text for a text.

use vstd::prelude::*;
use vstd::string::StringExecFns;

use crate::daemon::ipc::{refused, AddMarkdownRequest, DaemonResponse, LineRange, Position};
use crate::markdown::{are_headings_of, heading_lines, headings_of};
use crate::text::{
    are_lines, cat2, cat3, cat4, cat5, chars_of, debug_quote, debug_text, decimal, decimal_text,
    flat, flat_lines_split_again, inclusive_lines, inclusive_lines_of_concat,
    inclusive_lines_shape, is_at, is_line, opt_view, owned, same, split_lines, stands_at,
    text_between, trim_text, trimmed, views,
};

verus! {

/// What a request to write does to the page.
#[derive(Debug)]
pub enum Edit {
    /// The content is the whole page.
    Whole,
    /// The content goes into the section of the heading.
    UnderHeading(String, Position),
    /// The content takes the place of the lines.
    Lines(LineRange),
    /// The content takes the place of the text.
    Match(String),
}

/// The message where a request asks for more than one edit.
pub const TOO_MANY_EDITS: &'static str =
    "set only one of under_heading, replace_lines and replace_match";

/// How many edits a request asks for.
pub open spec fn edits_asked(req: AddMarkdownRequest) -> nat {
    let a: nat = if req.under_heading is Some {
        1
    } else {
        0
    };
    let b: nat = if req.replace_lines is Some {
        1
    } else {
        0
    };
    let c: nat = if req.replace_match is Some {
        1
    } else {
        0
    };
    a + b + c
}

/// Whether the edit is the one that the request asks for.
pub open spec fn is_edit_of(edit: Edit, req: AddMarkdownRequest) -> bool {
    match edit {
        Edit::Whole => edits_asked(req) == 0,
        Edit::UnderHeading(heading, position) => opt_view(req.under_heading) == Some(heading@)
            && position == req.position,
        Edit::Lines(range) => req.replace_lines == Some(range),
        Edit::Match(text) => opt_view(req.replace_match) == Some(text@),
    }
}

/// The edit that a request asks for.  It may ask for one at most.
pub fn edit_of(req: &AddMarkdownRequest) -> (out: Result<Edit, DaemonResponse>)
    ensures
        edits_asked(*req) > 1 ==> refused(out, TOO_MANY_EDITS@),
        edits_asked(*req) <= 1 ==> (out matches Ok(edit) && is_edit_of(edit, *req)),
{
    let heading = req.under_heading.is_some();
    let lines = req.replace_lines.is_some();
    let text = req.replace_match.is_some();
    if (heading && lines) || (heading && text) || (lines && text) {
        return Err(DaemonResponse::invalid_params(TOO_MANY_EDITS));
    }
    if let Some(wanted) = &req.under_heading {
        return Ok(Edit::UnderHeading(wanted.clone(), req.position));
    }
    if let Some(range) = req.replace_lines {
        return Ok(Edit::Lines(range));
    }
    if let Some(wanted) = &req.replace_match {
        return Ok(Edit::Match(wanted.clone()));
    }
    Ok(Edit::Whole)
}

/// A heading of a page.
#[derive(Debug)]
pub struct Heading {
    /// Its first line, counted from zero.
    pub first: usize,
    /// The line after its last.
    pub after: usize,
    /// Its level: one for a title, more for what is below it.
    pub level: usize,
    /// What it says, as it is shown.
    pub text: String,
}

/// Whether these can be the headings of a page of `count` lines, in their order.
pub open spec fn headings_fit(headings: Seq<Heading>, count: nat) -> bool {
    &&& forall|i: int|
        0 <= i < headings.len() ==> (#[trigger] headings[i]).first < headings[i].after
            <= count
    &&& forall|i: int, j: int|
        0 <= i < j < headings.len() ==> (#[trigger] headings[i]).after <= (
        #[trigger] headings[j]).first
}

/// A page that is there.
#[derive(Debug)]
pub struct Page {
    pub text: String,
    pub headings: Vec<Heading>,
}

impl Page {
    /// Whether the headings can be those of the text.
    pub open spec fn well_formed(self) -> bool {
        headings_fit(self.headings@, inclusive_lines(self.text@).len())
    }

    /// Whether the headings are those of the text.
    pub open spec fn is_whole(self) -> bool {
        let lines = inclusive_lines(self.text@);
        &&& self.well_formed()
        &&& are_headings_of(self.headings@, lines, heading_lines(lines, lines.len() as int))
    }

    /// The page with the text, and its headings.
    pub fn of(text: String) -> (out: Page)
        ensures
            out.text == text,
            out.is_whole(),
    {
        let headings = headings_of(text.as_str());
        Page { text, headings }
    }
}

/// The text with a line feed at its end, unless it is empty or has one.
pub open spec fn finished(s: Seq<char>) -> Seq<char> {
    if s.len() > 0 && s.last() != '\n' {
        s.push('\n')
    } else {
        s
    }
}

/// What takes the place of the lines from `from` up to `to`: where lines follow,
/// or the lines ended in a line feed, so does the content.
pub open spec fn filling(lines: Seq<Seq<char>>, from: int, to: int, content: Seq<char>) -> Seq<
    char,
> {
    if to < lines.len() || (from < to && lines[to - 1].last() == '\n') {
        finished(content)
    } else {
        content
    }
}

/// What stands before the lines from `from` on: where content follows, it ends
/// in a line feed.
pub open spec fn leading(lines: Seq<Seq<char>>, from: int, content: Seq<char>) -> Seq<char> {
    if content.len() > 0 {
        finished(flat(lines.take(from)))
    } else {
        flat(lines.take(from))
    }
}

/// The lines with the content in the place of those from `from` up to `to`.
pub open spec fn spliced(lines: Seq<Seq<char>>, from: int, to: int, content: Seq<char>) -> Seq<
    char,
> {
    leading(lines, from, content) + filling(lines, from, to, content) + flat(lines.skip(to))
}

fn finish(text: &mut String)
    ensures
        final(text)@ == finished(old(text)@),
{
    let letters = chars_of(text.as_str());
    let count: usize = letters.len();
    if count > 0 && letters[count - 1] != '\n' {
        text.push('\n');
    }
}

fn flat_between(lines: &Vec<String>, from: usize, to: usize) -> (out: String)
    requires
        from <= to <= lines.len(),
    ensures
        out@ == flat(views(lines@).subrange(from as int, to as int)),
{
    let mut out = String::new();
    proof {
        assert(views(lines@).subrange(from as int, from as int) =~= Seq::<Seq<char>>::empty());
    }
    for i in from..to
        invariant
            from <= to <= lines.len(),
            out@ == flat(views(lines@).subrange(from as int, i as int)),
    {
        proof {
            let next = views(lines@).subrange(from as int, i + 1);
            assert(next.drop_last() =~= views(lines@).subrange(from as int, i as int));
            assert(next.last() == lines@[i as int]@);
        }
        out.append(lines[i].as_str());
    }
    out
}

fn ends_line(line: &str) -> (out: bool)
    ensures
        out ==> line@.len() > 0,
        line@.len() > 0 ==> out == (line@.last() == '\n'),
{
    let letters = chars_of(line);
    let count: usize = letters.len();
    count > 0 && letters[count - 1] == '\n'
}

/// The lines with the content in the place of those from `from` up to `to`.
fn splice(lines: &Vec<String>, from: usize, to: usize, content: &str) -> (out: String)
    requires
        from <= to <= lines.len(),
        are_lines(views(lines@)),
    ensures
        out@ == spliced(views(lines@), from as int, to as int, content@),
{
    let ghost all = views(lines@);
    let mut out = flat_between(lines, 0, from);
    proof {
        assert(all.subrange(0, from as int) =~= all.take(from as int));
        assert(all.subrange(to as int, lines@.len() as int) =~= all.skip(to as int));
        if from < to {
            assert(all[to - 1] == lines@[to - 1]@);
            assert(is_line(all[to - 1]));
        }
    }
    let mut middle = owned(content);
    if !content.is_empty() {
        finish(&mut out);
    }
    if to < lines.len() || (from < to && ends_line(lines[to - 1].as_str())) {
        finish(&mut middle);
    }
    out.append(middle.as_str());
    let rest = flat_between(lines, to, lines.len());
    out.append(rest.as_str());
    out
}

/// The lines before and after those that were replaced are as they were, where
/// the lines before end in a line feed.
pub proof fn other_lines_stay(text: Seq<char>, from: int, to: int, content: Seq<char>)
    requires
        0 <= from <= to <= inclusive_lines(text).len(),
        from > 0 ==> inclusive_lines(text)[from - 1].last() == '\n',
    ensures
        ({
            let lines = inclusive_lines(text);
            inclusive_lines(spliced(lines, from, to, content)) == lines.take(from)
                + inclusive_lines(filling(lines, from, to, content)) + lines.skip(to)
        }),
{
    let lines = inclusive_lines(text);
    let head = lines.take(from);
    let tail = lines.skip(to);
    let middle = filling(lines, from, to, content);
    inclusive_lines_shape(text);
    assert(are_lines(head)) by {
        assert forall|i: int| 0 <= i < head.len() implies is_line(#[trigger] head[i]) by {
            assert(is_line(lines[i]));
        }
        assert forall|i: int| 0 <= i < head.len() - 1 implies (#[trigger] head[i]).last() == '\n' by {
            assert(lines[i].last() == '\n');
        }
    }
    assert(are_lines(tail)) by {
        assert forall|i: int| 0 <= i < tail.len() implies is_line(#[trigger] tail[i]) by {
            assert(is_line(lines[i + to]));
        }
        assert forall|i: int| 0 <= i < tail.len() - 1 implies (#[trigger] tail[i]).last() == '\n' by {
            assert(lines[i + to].last() == '\n');
        }
    }
    flat_lines_split_again(head);
    flat_lines_split_again(tail);
    assert(leading(lines, from, content) == flat(head));
    inclusive_lines_of_concat(flat(head), middle + flat(tail));
    assert(flat(head) + (middle + flat(tail)) =~= spliced(lines, from, to, content));
    if tail.len() > 0 {
        inclusive_lines_of_concat(middle, flat(tail));
    } else {
        assert(middle + flat(tail) =~= middle);
        assert(inclusive_lines(middle) + tail =~= inclusive_lines(middle));
    }
    assert(head + (inclusive_lines(middle) + tail) =~= head + inclusive_lines(middle) + tail);
}

/// The message where there are no such lines.
pub open spec fn no_such_lines(range: LineRange, path: Seq<char>, count: nat) -> Seq<char> {
    "lines "@ + decimal(range.start as nat) + "-"@ + decimal(range.end as nat)
        + " are out of range: "@ + path + " has "@ + decimal(count) + " lines"@
}

/// The page with the content in the place of some of its lines, which are
/// counted from one, the last of them included.
pub open spec fn lines_replaced(
    text: Seq<char>,
    range: LineRange,
    content: Seq<char>,
    path: Seq<char>,
) -> Result<Seq<char>, Seq<char>> {
    let lines = inclusive_lines(text);
    if 1 <= range.start <= range.end <= lines.len() {
        Ok(spliced(lines, range.start - 1, range.end as int, content))
    } else {
        Err(no_such_lines(range, path, lines.len()))
    }
}

/// What the result says.
pub open spec fn result_view(out: Result<String, String>) -> Result<Seq<char>, Seq<char>> {
    match out {
        Ok(text) => Ok(text@),
        Err(message) => Err(message@),
    }
}

/// The page with the content in the place of some of its lines.
pub fn replace_lines(text: &str, range: LineRange, content: &str, path: &str) -> (out: Result<
    String,
    String,
>)
    ensures
        result_view(out) == lines_replaced(text@, range, content@, path@),
{
    let lines = split_lines(text);
    proof {
        inclusive_lines_shape(text@);
    }
    let count: usize = lines.len();
    if 1 <= range.start && range.start <= range.end && range.end <= count {
        return Ok(splice(&lines, range.start - 1, range.end, content));
    }
    let start = decimal_text(range.start as u64);
    let end = decimal_text(range.end as u64);
    let number = decimal_text(count as u64);
    let mut message = cat5("lines ", start.as_str(), "-", end.as_str(), " are out of range: ");
    message.append(path);
    message.append(" has ");
    message.append(number.as_str());
    message.append(" lines");
    Err(message)
}

/// Where before `n` the text stands in the page, in their order.
pub open spec fn places_before(text: Seq<char>, wanted: Seq<char>, n: int) -> Seq<int>
    decreases n,
{
    if n <= 0 {
        Seq::empty()
    } else if stands_at(text, wanted, n - 1) {
        places_before(text, wanted, n - 1).push(n - 1)
    } else {
        places_before(text, wanted, n - 1)
    }
}

/// Where the text stands in the page, in their order.
pub open spec fn places(text: Seq<char>, wanted: Seq<char>) -> Seq<int> {
    places_before(text, wanted, text.len() as int + 1)
}

/// The page with the content in the place of a text that stands in it once.
pub open spec fn text_replaced(
    text: Seq<char>,
    wanted: Seq<char>,
    content: Seq<char>,
    path: Seq<char>,
) -> Result<Seq<char>, Seq<char>> {
    let found = places(text, wanted);
    if found.len() == 0 {
        Err("text not found in "@ + path)
    } else if found.len() > 1 {
        Err("text is ambiguous in "@ + path + ": "@ + decimal(found.len()) + " matches"@)
    } else {
        Ok(text.take(found[0]) + content + text.skip(found[0] + wanted.len()))
    }
}

/// The page with the content in the place of a text that stands in it once.
pub fn replace_match(text: &str, wanted: &str, content: &str, path: &str) -> (out: Result<
    String,
    String,
>)
    ensures
        result_view(out) == text_replaced(text@, wanted@, content@, path@),
{
    let letters = chars_of(text);
    let sought = chars_of(wanted);
    let mut found: Vec<usize> = Vec::new();
    let total: usize = letters.len();
    proof {
        assert(places_before(text@, wanted@, 0) =~= Seq::<int>::empty());
        assert(indices(found@) =~= Seq::<int>::empty());
    }
    let mut at: usize = 0;
    while at < total
        invariant
            at <= total == letters@.len(),
            letters@ == text@,
            sought@ == wanted@,
            indices(found@) == places_before(text@, wanted@, at as int),
        decreases total - at,
    {
        if is_at(&letters, &sought, at) {
            let ghost before = indices(found@);
            found.push(at);
            proof {
                assert(indices(found@) =~= before.push(at as int));
            }
        }
        at = at + 1;
    }
    if is_at(&letters, &sought, total) {
        let ghost before = indices(found@);
        found.push(total);
        proof {
            assert(indices(found@) =~= before.push(total as int));
        }
    }
    proof {
        assert(indices(found@) == places(text@, wanted@));
        assert(indices(found@).len() == found@.len());
    }
    if found.len() == 0 {
        return Err(cat2("text not found in ", path));
    }
    if found.len() > 1 {
        let number = decimal_text(found.len() as u64);
        return Err(cat5("text is ambiguous in ", path, ": ", number.as_str(), " matches"));
    }
    let first: usize = found[0];
    proof {
        assert(indices(found@)[0] == first);
        place_is_in_text(text@, wanted@, text@.len() as int + 1, 0);
    }
    let head = text_between(&letters, 0, first);
    let tail = text_between(&letters, first + sought.len(), total);
    proof {
        assert(head@ =~= text@.take(first as int));
        assert(tail@ =~= text@.skip(first + wanted@.len()));
    }
    Ok(cat3(head.as_str(), content, tail.as_str()))
}

/// The indices as numbers.
pub open spec fn indices(list: Seq<usize>) -> Seq<int> {
    Seq::new(list.len(), |i: int| list[i] as int)
}

proof fn place_is_in_text(text: Seq<char>, wanted: Seq<char>, n: int, i: int)
    requires
        0 <= i < places_before(text, wanted, n).len(),
    ensures
        stands_at(text, wanted, places_before(text, wanted, n)[i]),
    decreases n,
{
    if i < places_before(text, wanted, n - 1).len() {
        place_is_in_text(text, wanted, n - 1, i);
    }
}

/// A text is replaced where it stands, and there only: the page holds it once,
/// and what is before and after it stays.
pub proof fn replaced_text_stood_alone(
    text: Seq<char>,
    wanted: Seq<char>,
    content: Seq<char>,
    path: Seq<char>,
)
    requires
        text_replaced(text, wanted, content, path) is Ok,
    ensures
        exists|at: int|
            stands_at(text, wanted, at) && text == #[trigger] text.take(at) + wanted + text.skip(
                at + wanted.len(),
            ) && text_replaced(text, wanted, content, path) == Ok::<Seq<char>, Seq<char>>(
                text.take(at) + content + text.skip(at + wanted.len()),
            ),
        forall|i: int, j: int|
            stands_at(text, wanted, i) && stands_at(text, wanted, j) ==> i == j,
{
    let at = places(text, wanted)[0];
    place_is_in_text(text, wanted, text.len() as int + 1, 0);
    assert(text =~= text.take(at) + wanted + text.skip(at + wanted.len())) by {
        assert(text.subrange(at, at + wanted.len()) == wanted);
    }
    assert forall|i: int, j: int|
        stands_at(text, wanted, i) && stands_at(text, wanted, j) implies i == j by {
        place_is_listed(text, wanted, text.len() as int + 1, i);
        place_is_listed(text, wanted, text.len() as int + 1, j);
    }
}

proof fn place_is_listed(text: Seq<char>, wanted: Seq<char>, n: int, at: int)
    requires
        stands_at(text, wanted, at),
        at < n,
    ensures
        exists|i: int|
            0 <= i < places_before(text, wanted, n).len() && #[trigger] places_before(
                text,
                wanted,
                n,
            )[i] == at,
    decreases n,
{
    let all = places_before(text, wanted, n);
    if at == n - 1 {
        assert(all[all.len() - 1] == at);
    } else {
        place_is_listed(text, wanted, n - 1, at);
        let i = choose|i: int|
            0 <= i < places_before(text, wanted, n - 1).len() && #[trigger] places_before(
                text,
                wanted,
                n - 1,
            )[i] == at;
        assert(all[i] == at);
    }
}

/// Whether the heading is the one that is meant.
pub open spec fn is_meant(heading: Heading, wanted: Seq<char>) -> bool {
    trimmed(heading.text@) == trimmed(wanted)
}

/// Which of the first `n` headings are meant, in their order.
pub open spec fn meant(headings: Seq<Heading>, wanted: Seq<char>, n: int) -> Seq<int>
    decreases n,
{
    if n <= 0 {
        Seq::empty()
    } else if is_meant(headings[n - 1], wanted) {
        meant(headings, wanted, n - 1).push(n - 1)
    } else {
        meant(headings, wanted, n - 1)
    }
}

/// Where a section of the level ends: at the next heading from `i` on that is of
/// the same level or a higher one, or at the end of the page.
pub open spec fn section_end(headings: Seq<Heading>, level: usize, i: int, count: nat) -> int
    decreases headings.len() - i,
{
    if i < 0 || i >= headings.len() {
        count as int
    } else if headings[i].level <= level {
        headings[i].first as int
    } else {
        section_end(headings, level, i + 1, count)
    }
}

/// The line before which a fragment goes into the section of heading `i`.
pub open spec fn splice_line(
    headings: Seq<Heading>,
    i: int,
    position: Position,
    count: nat,
) -> int {
    match position {
        Position::Prepend => headings[i].after as int,
        Position::Append => section_end(headings, headings[i].level, i + 1, count),
    }
}

/// The page with the content in the section of a heading that it has once.
pub open spec fn section_extended(
    text: Seq<char>,
    headings: Seq<Heading>,
    wanted: Seq<char>,
    position: Position,
    content: Seq<char>,
    path: Seq<char>,
) -> Result<Seq<char>, Seq<char>> {
    let lines = inclusive_lines(text);
    let found = meant(headings, wanted, headings.len() as int);
    if found.len() == 0 {
        Err("heading "@ + debug_text(wanted) + " not found in "@ + path)
    } else if found.len() > 1 {
        Err("heading "@ + debug_text(wanted) + " is ambiguous in "@ + path)
    } else {
        let at = splice_line(headings, found[0], position, lines.len());
        Ok(spliced(lines, at, at, content))
    }
}

proof fn meant_is_an_index(headings: Seq<Heading>, wanted: Seq<char>, n: int, k: int)
    requires
        0 <= k < meant(headings, wanted, n).len(),
    ensures
        0 <= meant(headings, wanted, n)[k] < n,
    decreases n,
{
    if k < meant(headings, wanted, n - 1).len() {
        meant_is_an_index(headings, wanted, n - 1, k);
    }
}

fn find_section_end(headings: &Vec<Heading>, level: usize, from: usize, count: usize) -> (out:
    usize)
    ensures
        out == section_end(headings@, level, from as int, count as nat),
{
    let mut i: usize = from;
    while i < headings.len()
        invariant
            section_end(headings@, level, from as int, count as nat) == section_end(
                headings@,
                level,
                i as int,
                count as nat,
            ),
        decreases headings.len() - i,
    {
        if headings[i].level <= level {
            return headings[i].first;
        }
        i = i + 1;
    }
    count
}

/// Sections end where the page does or before, and not before the heading that
/// follows.
proof fn section_end_is_behind(headings: Seq<Heading>, level: usize, i: int, count: nat)
    requires
        headings_fit(headings, count),
        0 < i <= headings.len(),
    ensures
        headings[i - 1].after <= section_end(headings, level, i, count) <= count,
    decreases headings.len() - i,
{
    if i < headings.len() {
        assert(headings[i - 1].after <= headings[i].first);
        assert(headings[i].first < headings[i].after);
        section_end_is_behind(headings, level, i + 1, count);
    }
}

/// The page with the content in the section of a heading that it has once:
/// right after the heading, or before the next heading that is no part of the
/// section.
pub fn splice_under_heading(
    page: &Page,
    wanted: &str,
    position: Position,
    content: &str,
    path: &str,
) -> (out: Result<String, String>)
    requires
        page.well_formed(),
    ensures
        result_view(out) == section_extended(
            page.text@,
            page.headings@,
            wanted@,
            position,
            content@,
            path@,
        ),
{
    let lines = split_lines(page.text.as_str());
    let sought = trim_text(wanted);
    let mut found: Vec<usize> = Vec::new();
    proof {
        inclusive_lines_shape(page.text@);
        assert(indices(found@) =~= Seq::<int>::empty());
    }
    for i in 0..page.headings.len()
        invariant
            sought@ == trimmed(wanted@),
            indices(found@) == meant(page.headings@, wanted@, i as int),
    {
        let shown = trim_text(page.headings[i].text.as_str());
        if same(shown.as_str(), sought.as_str()) {
            let ghost before = indices(found@);
            found.push(i);
            proof {
                assert(indices(found@) =~= before.push(i as int));
            }
        }
    }
    proof {
        assert(indices(found@).len() == found@.len());
    }
    if found.len() == 0 {
        let quoted = debug_quote(wanted);
        return Err(cat4("heading ", quoted.as_str(), " not found in ", path));
    }
    if found.len() > 1 {
        let quoted = debug_quote(wanted);
        return Err(cat4("heading ", quoted.as_str(), " is ambiguous in ", path));
    }
    let at: usize = found[0];
    proof {
        assert(indices(found@)[0] == at);
        meant_is_an_index(page.headings@, wanted@, page.headings@.len() as int, 0);
        section_end_is_behind(
            page.headings@,
            page.headings@[at as int].level,
            at + 1,
            lines@.len() as nat,
        );
        assert(page.headings@[at as int].first < page.headings@[at as int].after);
    }
    let heading = &page.headings[at];
    let line: usize = match position {
        Position::Prepend => heading.after,
        Position::Append => find_section_end(&page.headings, heading.level, at + 1, lines.len()),
    };
    Ok(splice(&lines, line, line, content))
}

/// A fragment goes behind its heading, and before each heading behind it that is
/// of the same level or a higher one.
pub proof fn fragment_stays_in_its_section(
    headings: Seq<Heading>,
    i: int,
    j: int,
    position: Position,
    count: nat,
)
    requires
        headings_fit(headings, count),
        0 <= i < j < headings.len(),
        headings[j].level <= headings[i].level,
    ensures
        headings[i].after <= splice_line(headings, i, position, count) <= headings[j].first,
{
    section_end_is_behind(headings, headings[i].level, i + 1, count);
    section_ends_before(headings, headings[i].level, i + 1, j, count);
    assert(headings[i].after <= headings[j].first);
}

proof fn section_ends_before(headings: Seq<Heading>, level: usize, i: int, j: int, count: nat)
    requires
        headings_fit(headings, count),
        0 <= i <= j < headings.len(),
        headings[j].level <= level,
    ensures
        section_end(headings, level, i, count) <= headings[j].first,
    decreases j - i,
{
    if i < j {
        assert(headings[i].first < headings[i].after);
        assert(headings[i].after <= headings[j].first);
        section_ends_before(headings, level, i + 1, j, count);
    }
}

/// What is written, or why nothing is.
pub open spec fn edited(
    edit: Edit,
    page: Page,
    content: Seq<char>,
    path: Seq<char>,
) -> Result<Seq<char>, Seq<char>> {
    match edit {
        Edit::Whole => Ok(content),
        Edit::UnderHeading(wanted, position) => section_extended(
            page.text@,
            page.headings@,
            wanted@,
            position,
            content,
            path,
        ),
        Edit::Lines(range) => lines_replaced(page.text@, range, content, path),
        Edit::Match(wanted) => text_replaced(page.text@, wanted@, content, path),
    }
}

/// What is written, or why nothing is.
pub fn apply_edit(edit: &Edit, page: &Page, content: &str, path: &str) -> (out: Result<
    String,
    String,
>)
    requires
        page.well_formed(),
    ensures
        result_view(out) == edited(*edit, *page, content@, path@),
{
    match edit {
        Edit::Whole => Ok(owned(content)),
        Edit::UnderHeading(wanted, position) => splice_under_heading(
            page,
            wanted.as_str(),
            *position,
            content,
            path,
        ),
        Edit::Lines(range) => replace_lines(page.text.as_str(), *range, content, path),
        Edit::Match(wanted) => replace_match(page.text.as_str(), wanted.as_str(), content, path),
    }
}

/// A line feed where the text needs one to end its last line.
pub open spec fn line_end(needed: bool) -> Seq<char> {
    if needed {
        seq!['\n']
    } else {
        Seq::empty()
    }
}

/// What is put in the place of some lines is there whole, between all that stood
/// before them and all that stood behind them.  Nothing is added but a line feed
/// where a line would run into the next one.
pub proof fn splices_are_whole(lines: Seq<Seq<char>>, from: int, to: int, content: Seq<char>)
    requires
        0 <= from <= to <= lines.len(),
    ensures
        ({
            let head = flat(lines.take(from));
            let tail = flat(lines.skip(to));
            spliced(lines, from, to, content) == head + line_end(
                content.len() > 0 && head.len() > 0 && head.last() != '\n',
            ) + content + line_end(
                content.len() > 0 && content.last() != '\n' && (to < lines.len() || (from < to
                    && lines[to - 1].last() == '\n')),
            ) + tail
        }),
{
    let head = flat(lines.take(from));
    let tail = flat(lines.skip(to));
    let first = line_end(content.len() > 0 && head.len() > 0 && head.last() != '\n');
    let second = line_end(
        content.len() > 0 && content.last() != '\n' && (to < lines.len() || (from < to && lines[to
            - 1].last() == '\n')),
    );
    assert(leading(lines, from, content) =~= head + first);
    assert(filling(lines, from, to, content) =~= content + second);
    assert(spliced(lines, from, to, content) =~= head + first + content + second + tail);
}

/// Lines are replaced exactly where the page has them; then what was sent takes
/// their place, and every other line stays.
pub proof fn replaced_lines_are_those_asked_for(
    text: Seq<char>,
    range: LineRange,
    content: Seq<char>,
    path: Seq<char>,
)
    ensures
        lines_replaced(text, range, content, path) is Ok <==> 1 <= range.start <= range.end
            <= inclusive_lines(text).len(),
        lines_replaced(text, range, content, path) matches Ok(out) ==> {
            let lines = inclusive_lines(text);
            let head = flat(lines.take(range.start - 1));
            let tail = flat(lines.skip(range.end as int));
            out == head + content + line_end(
                content.len() > 0 && content.last() != '\n' && (range.end < lines.len()
                    || lines[range.end - 1].last() == '\n'),
            ) + tail
        },
{
    let lines = inclusive_lines(text);
    if 1 <= range.start <= range.end <= lines.len() {
        let from = range.start - 1;
        splices_are_whole(lines, from, range.end as int, content);
        let head = flat(lines.take(from));
        inclusive_lines_shape(text);
        lines_before_a_line_are_finished(lines, from);
        assert(head + line_end(false) =~= head);
    }
}

proof fn lines_before_a_line_are_finished(lines: Seq<Seq<char>>, n: int)
    requires
        are_lines(lines),
        0 <= n < lines.len(),
    ensures
        flat(lines.take(n)).len() > 0 ==> flat(lines.take(n)).last() == '\n',
{
    if n > 0 {
        let front = lines.take(n);
        assert(front.drop_last() =~= lines.take(n - 1));
        assert(front.last() == lines[n - 1]);
        assert(is_line(lines[n - 1]));
        assert(lines[n - 1].last() == '\n');
    } else {
        assert(lines.take(0) =~= Seq::<Seq<char>>::empty());
    }
}

/// A text that stands in the page once can be replaced; one that does not stand
/// there, or more than once, cannot.
pub proof fn texts_that_stand_alone_are_replaced(
    text: Seq<char>,
    wanted: Seq<char>,
    content: Seq<char>,
    path: Seq<char>,
    at: int,
)
    requires
        stands_at(text, wanted, at),
        forall|j: int| #[trigger] stands_at(text, wanted, j) ==> j == at,
    ensures
        text_replaced(text, wanted, content, path) == Ok::<Seq<char>, Seq<char>>(
            text.subrange(0, at) + content + text.subrange(
                at + wanted.len(),
                text.len() as int,
            ),
        ),
{
    let n = text.len() as int + 1;
    let found = places(text, wanted);
    place_is_listed(text, wanted, n, at);
    places_are_distinct(text, wanted, n);
    place_is_in_text(text, wanted, n, 0);
    if found.len() > 1 {
        place_is_in_text(text, wanted, n, 1);
        assert(found[0] < found[1]);
    }
    assert(text.take(at) =~= text.subrange(0, at));
    assert(text.skip(at + wanted.len()) =~= text.subrange(at + wanted.len(), text.len() as int));
}

proof fn places_are_distinct(text: Seq<char>, wanted: Seq<char>, n: int)
    ensures
        forall|i: int, j: int|
            0 <= i < j < places_before(text, wanted, n).len() ==> #[trigger] places_before(
                text,
                wanted,
                n,
            )[i] < #[trigger] places_before(text, wanted, n)[j],
        forall|i: int|
            0 <= i < places_before(text, wanted, n).len() ==> #[trigger] places_before(
                text,
                wanted,
                n,
            )[i] < n,
    decreases n,
{
    if n > 0 {
        places_are_distinct(text, wanted, n - 1);
        let before = places_before(text, wanted, n - 1);
        let now = places_before(text, wanted, n);
        assert forall|i: int| 0 <= i < now.len() implies #[trigger] now[i] < n by {
            if i < before.len() {
                assert(now[i] == before[i]);
            }
        }
        assert forall|i: int, j: int|
            0 <= i < j < now.len() implies #[trigger] now[i] < #[trigger] now[j] by {
            assert(now[i] == before[i]);
            if j < before.len() {
                assert(now[j] == before[j]);
            }
        }
    }
}

proof fn meant_are_those_that_say_it(headings: Seq<Heading>, wanted: Seq<char>, n: int)
    requires
        0 <= n <= headings.len(),
    ensures
        forall|i: int|
            0 <= i < n && trimmed((#[trigger] headings[i]).text@) == trimmed(wanted) ==> meant(
                headings,
                wanted,
                n,
            ).contains(i),
        forall|k: int|
            0 <= k < meant(headings, wanted, n).len() ==> 0 <= (#[trigger] meant(
                headings,
                wanted,
                n,
            )[k]) < n && trimmed(headings[meant(headings, wanted, n)[k]].text@) == trimmed(wanted),
        forall|k: int, l: int|
            0 <= k < l < meant(headings, wanted, n).len() ==> #[trigger] meant(headings, wanted, n)[k]
                < #[trigger] meant(headings, wanted, n)[l],
    decreases n,
{
    if n > 0 {
        meant_are_those_that_say_it(headings, wanted, n - 1);
        let before = meant(headings, wanted, n - 1);
        let now = meant(headings, wanted, n);
        assert forall|i: int|
            0 <= i < n && trimmed((#[trigger] headings[i]).text@) == trimmed(
                wanted,
            ) implies now.contains(i) by {
            if i == n - 1 {
                assert(now[now.len() - 1] == i);
            } else {
                let k = choose|k: int| 0 <= k < before.len() && before[k] == i;
                assert(now[k] == i);
            }
        }
    }
}

/// Whether the heading is the only one of the page that says what is wanted, but
/// for white space at the ends.
pub open spec fn is_only_one_meant(headings: Seq<Heading>, wanted: Seq<char>, i: int) -> bool {
    &&& 0 <= i < headings.len()
    &&& trimmed(headings[i].text@) == trimmed(wanted)
    &&& forall|j: int|
        0 <= j < headings.len() && trimmed((#[trigger] headings[j]).text@) == trimmed(wanted)
            ==> j == i
}

/// A section is found exactly where one heading says what is wanted, and only one.
pub proof fn sections_are_found_by_their_heading(
    text: Seq<char>,
    headings: Seq<Heading>,
    wanted: Seq<char>,
    position: Position,
    content: Seq<char>,
    path: Seq<char>,
)
    ensures
        section_extended(text, headings, wanted, position, content, path) is Ok <==> exists|i: int|
            is_only_one_meant(headings, wanted, i),
{
    let n = headings.len() as int;
    let found = meant(headings, wanted, n);
    meant_are_those_that_say_it(headings, wanted, n);
    if found.len() == 1 {
        assert forall|j: int|
            0 <= j < n && trimmed((#[trigger] headings[j]).text@) == trimmed(wanted) implies j
            == found[0] by {
            assert(found.contains(j));
        }
        assert(is_only_one_meant(headings, wanted, found[0]));
    }
    if exists|i: int| is_only_one_meant(headings, wanted, i) {
        let i = choose|i: int| is_only_one_meant(headings, wanted, i);
        assert(found.contains(i));
        if found.len() > 1 {
            assert(found[0] < found[1]);
            assert(found[0] == i && found[1] == i);
        }
    }
}

/// Whether the section of heading `i` ends before line `at`: at the end of the
/// page, where no heading behind it is of its level or a higher one, and otherwise
/// at the first such heading.
pub open spec fn section_reaches(headings: Seq<Heading>, i: int, at: int, count: nat) -> bool {
    ||| at == count && forall|j: int|
        i < j < headings.len() ==> (#[trigger] headings[j]).level > headings[i].level
    ||| exists|j: int|
        i < j < headings.len() && at == (#[trigger] headings[j]).first && headings[j].level
            <= headings[i].level && forall|k: int|
            i < k < j ==> (#[trigger] headings[k]).level > headings[i].level
}

proof fn sections_reach_from(headings: Seq<Heading>, i: int, from: int, count: nat)
    requires
        0 <= i < from <= headings.len(),
        forall|k: int| i < k < from ==> (#[trigger] headings[k]).level > headings[i].level,
    ensures
        section_reaches(
            headings,
            i,
            section_end(headings, headings[i].level, from, count),
            count,
        ),
    decreases headings.len() - from,
{
    if from < headings.len() {
        if headings[from].level > headings[i].level {
            sections_reach_from(headings, i, from + 1, count);
        } else {
            assert(headings[from].first == section_end(headings, headings[i].level, from, count));
        }
    }
}

/// What is added to a section stands right behind its heading, or at its end: the
/// section reaches as far as it can, over all that is below its heading.
pub proof fn fragments_stand_where_they_are_asked_for(
    text: Seq<char>,
    headings: Seq<Heading>,
    wanted: Seq<char>,
    content: Seq<char>,
    path: Seq<char>,
    i: int,
)
    requires
        is_only_one_meant(headings, wanted, i),
    ensures
        ({
            let lines = inclusive_lines(text);
            let after = headings[i].after as int;
            &&& section_extended(text, headings, wanted, Position::Prepend, content, path) == Ok::<
                Seq<char>,
                Seq<char>,
            >(spliced(lines, after, after, content))
            &&& exists|at: int|
                section_reaches(headings, i, at, lines.len()) && section_extended(
                    text,
                    headings,
                    wanted,
                    Position::Append,
                    content,
                    path,
                ) == Ok::<Seq<char>, Seq<char>>(#[trigger] spliced(lines, at, at, content))
        }),
{
    let lines = inclusive_lines(text);
    let found = meant(headings, wanted, headings.len() as int);
    sections_are_found_by_their_heading(text, headings, wanted, Position::Append, content, path);
    meant_are_those_that_say_it(headings, wanted, headings.len() as int);
    assert(found[0] == i);
    sections_reach_from(headings, i, i + 1, lines.len());
    let at = section_end(headings, headings[i].level, i + 1, lines.len());
    assert(section_extended(text, headings, wanted, Position::Append, content, path) == Ok::<
        Seq<char>,
        Seq<char>,
    >(spliced(lines, at, at, content)));
}

/// The edit of a request is the one that it names, with all that it says of it.
pub proof fn requests_name_their_edit(edit: Edit, req: AddMarkdownRequest)
    requires
        edits_asked(req) <= 1,
        is_edit_of(edit, req),
    ensures
        req.under_heading matches Some(heading) ==> (edit matches Edit::UnderHeading(
            wanted,
            position,
        ) && wanted@ == heading@ && position == req.position),
        req.replace_lines matches Some(range) ==> edit == Edit::Lines(range),
        req.replace_match matches Some(text) ==> (edit matches Edit::Match(wanted) && wanted@
            == text@),
        req.under_heading is None && req.replace_lines is None && req.replace_match is None
            ==> edit is Whole,
{
}

/// Of edits that exclude each other a request may name one, and no more.
pub proof fn requests_name_one_edit(req: AddMarkdownRequest)
    ensures
        edits_asked(req) > 1 <==> (req.under_heading is Some && req.replace_lines is Some) || (
        req.under_heading is Some && req.replace_match is Some) || (req.replace_lines is Some
            && req.replace_match is Some),
{
}

/// Each edit does what it is named after to the page that was read; without one,
/// what was sent is the page.
pub proof fn edits_do_what_they_are_named_after(
    edit: Edit,
    page: Page,
    content: Seq<char>,
    path: Seq<char>,
)
    ensures
        edit is Whole ==> edited(edit, page, content, path) == Ok::<Seq<char>, Seq<char>>(content),
        edit matches Edit::Lines(range) ==> edited(edit, page, content, path) == lines_replaced(
            page.text@,
            range,
            content,
            path,
        ),
        edit matches Edit::Match(wanted) ==> edited(edit, page, content, path) == text_replaced(
            page.text@,
            wanted@,
            content,
            path,
        ),
        edit matches Edit::UnderHeading(wanted, position) ==> edited(edit, page, content, path)
            == section_extended(page.text@, page.headings@, wanted@, position, content, path),
{
}

/// An edit that cannot be made is refused with the reason: the page has no such
/// lines, the text is not there or there several times, or the heading is.
pub proof fn edits_that_cannot_be_made_say_why(
    text: Seq<char>,
    headings: Seq<Heading>,
    wanted: Seq<char>,
    range: LineRange,
    position: Position,
    content: Seq<char>,
    path: Seq<char>,
)
    ensures
        !(1 <= range.start <= range.end <= inclusive_lines(text).len()) ==> lines_replaced(
            text,
            range,
            content,
            path,
        ) == Err::<Seq<char>, Seq<char>>(
            "lines "@ + decimal(range.start as nat) + "-"@ + decimal(range.end as nat)
                + " are out of range: "@ + path + " has "@ + decimal(inclusive_lines(text).len())
                + " lines"@,
        ),
        (forall|at: int| !#[trigger] stands_at(text, wanted, at)) ==> text_replaced(
            text,
            wanted,
            content,
            path,
        ) == Err::<Seq<char>, Seq<char>>("text not found in "@ + path),
        forall|a: int, b: int|
            a != b && #[trigger] stands_at(text, wanted, a) && #[trigger] stands_at(text, wanted, b)
                ==> text_replaced(text, wanted, content, path) is Err,
        (forall|i: int|
            0 <= i < headings.len() ==> trimmed((#[trigger] headings[i]).text@) != trimmed(wanted))
            ==> section_extended(text, headings, wanted, position, content, path) == Err::<
            Seq<char>,
            Seq<char>,
        >("heading "@ + debug_text(wanted) + " not found in "@ + path),
        forall|i: int, j: int|
            0 <= i < j < headings.len() && trimmed((#[trigger] headings[i]).text@) == trimmed(
                wanted,
            ) && trimmed((#[trigger] headings[j]).text@) == trimmed(wanted) ==> section_extended(
                text,
                headings,
                wanted,
                position,
                content,
                path,
            ) == Err::<Seq<char>, Seq<char>>(
                "heading "@ + debug_text(wanted) + " is ambiguous in "@ + path,
            ),
{
    let n = text.len() as int + 1;
    let found = places(text, wanted);
    if forall|at: int| !#[trigger] stands_at(text, wanted, at) {
        if found.len() > 0 {
            place_is_in_text(text, wanted, n, 0);
        }
    }
    assert forall|a: int, b: int|
        a != b && #[trigger] stands_at(text, wanted, a) && #[trigger] stands_at(text, wanted, b)
        implies text_replaced(text, wanted, content, path) is Err by {
        place_is_listed(text, wanted, n, a);
        place_is_listed(text, wanted, n, b);
        let i = choose|i: int| 0 <= i < found.len() && found[i] == a;
        let j = choose|j: int| 0 <= j < found.len() && found[j] == b;
        assert(i != j);
    }
    let m = headings.len() as int;
    let said = meant(headings, wanted, m);
    meant_are_those_that_say_it(headings, wanted, m);
    if forall|i: int|
        0 <= i < headings.len() ==> trimmed((#[trigger] headings[i]).text@) != trimmed(wanted) {
        if said.len() > 0 {
            assert(trimmed(headings[said[0]].text@) == trimmed(wanted));
        }
    }
    assert forall|i: int, j: int|
        0 <= i < j < headings.len() && trimmed((#[trigger] headings[i]).text@) == trimmed(wanted)
            && trimmed((#[trigger] headings[j]).text@) == trimmed(wanted) implies said.len()
        > 1 by {
        let k = choose|k: int| 0 <= k < said.len() && said[k] == i;
        let l = choose|l: int| 0 <= l < said.len() && said[l] == j;
        assert(said.contains(i) && said.contains(j));
        assert(k != l);
    }
}

} // verus!
