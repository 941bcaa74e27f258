//! The index pages of a wiki: the list of links that the daemon keeps between
//! two marks, in a page that is the author's everywhere else.

use vstd::prelude::*;
use vstd::string::StringExecFns;

use crate::cli::init_repo::{INDEX_END_MARKER, INDEX_START_MARKER};
use crate::daemon::rebuild_run::{RewriteOutcome, INDEX_FILENAME};
use crate::text::{
    blank, cat2, cat3, cat5, chars_of, ends_with, find_text, first_place, first_place_is_first,
    flat, has_prefix, has_suffix, inclusive_lines, is_blank, only_place_is_first, opt_str_view,
    opt_view, owned, same, split_lines, stands_at, starts_with, text_between, trim_text, trimmed,
    views,
};

verus! {

/// What an index page links to.
#[derive(Debug)]
pub struct IndexEntry {
    /// The name of the file or the directory.
    pub name: String,
    pub is_dir: bool,
    /// What the file is about: its title.
    pub gloss: Option<String>,
}

/// The model of an entry.
#[verifier::ext_equal]
pub struct EntryModel {
    pub name: Seq<char>,
    pub is_dir: bool,
    pub gloss: Option<Seq<char>>,
}

impl View for IndexEntry {
    type V = EntryModel;

    open spec fn view(&self) -> EntryModel {
        EntryModel { name: self.name@, is_dir: self.is_dir, gloss: opt_view(self.gloss) }
    }
}

/// The name of a page without its extension.
pub open spec fn stem(name: Seq<char>) -> Seq<char> {
    if has_suffix(name, ".md"@) {
        name.take(name.len() - 3)
    } else {
        name
    }
}

/// The link to an entry: to a page, or to the index page of a directory.
pub open spec fn link(entry: EntryModel) -> Seq<char> {
    if entry.is_dir {
        "["@ + entry.name + "/](./"@ + entry.name + "/index.md)"@
    } else {
        "["@ + stem(entry.name) + "](./"@ + entry.name + ")"@
    }
}

/// The line about an entry.
pub open spec fn entry_line(entry: EntryModel) -> Seq<char> {
    "- "@ + link(entry) + (match entry.gloss {
        Some(gloss) => " — "@ + gloss,
        None => Seq::empty(),
    }) + "\n"@
}

/// The lines about those of the first `n` entries that are listed.
pub open spec fn entry_lines(entries: Seq<IndexEntry>, n: int) -> Seq<char>
    decreases n,
{
    if n <= 0 {
        Seq::empty()
    } else if listed(entries[n - 1]@.name, entries[n - 1]@.is_dir) {
        entry_lines(entries, n - 1) + entry_line(entries[n - 1]@)
    } else {
        entry_lines(entries, n - 1)
    }
}

fn stem_of(name: &str) -> (out: String)
    ensures
        out@ == stem(name@),
{
    if ends_with(name, ".md") {
        proof {
            reveal_strlit(".md");
        }
        let letters = chars_of(name);
        let out = text_between(&letters, 0, letters.len() - 3);
        proof {
            assert(out@ =~= name@.take(name@.len() - 3));
        }
        out
    } else {
        owned(name)
    }
}

/// The list of links of an index page, from the entries of its directory.
pub fn link_list(entries: &Vec<IndexEntry>) -> (out: String)
    ensures
        out@ == entry_lines(entries@, entries@.len() as int),
{
    let mut out = String::new();
    for i in 0..entries.len()
        invariant
            out@ == entry_lines(entries@, i as int),
    {
        let entry = &entries[i];
        let ghost before = out@;
        if is_listed(entry.name.as_str(), entry.is_dir) {
            let target = if entry.is_dir {
                cat5("[", entry.name.as_str(), "/](./", entry.name.as_str(), "/index.md)")
            } else {
                let short = stem_of(entry.name.as_str());
                cat5("[", short.as_str(), "](./", entry.name.as_str(), ")")
            };
            let tail = match &entry.gloss {
                Some(gloss) => cat2(" — ", gloss.as_str()),
                None => String::new(),
            };
            out.append("- ");
            out.append(target.as_str());
            out.append(tail.as_str());
            out.append("\n");
            proof {
                assert(tail@ =~= (match entry@.gloss {
                    Some(gloss) => " — "@ + gloss,
                    None => Seq::empty(),
                }));
                assert(out@ =~= before + entry_line(entry@));
            }
        }
    }
    out
}

/// What stands before the list: the page up to the mark that starts it, with the
/// mark.
pub open spec fn before_list(page: Seq<char>) -> Option<Seq<char>> {
    match first_place(page, INDEX_START_MARKER@, 0) {
        Some(at) => Some(page.take(at + INDEX_START_MARKER@.len())),
        None => None,
    }
}

/// What stands after the list: the page from the mark on that ends it.
pub open spec fn after_list(page: Seq<char>) -> Option<Seq<char>> {
    match before_list(page) {
        Some(head) => {
            let rest = page.skip(head.len() as int);
            match first_place(rest, INDEX_END_MARKER@, 0) {
                Some(at) => Some(rest.skip(at)),
                None => None,
            }
        },
        None => None,
    }
}

/// The page with the list between its marks; none where it lacks them.
pub open spec fn with_list(page: Seq<char>, list: Seq<char>) -> Option<Seq<char>> {
    match (before_list(page), after_list(page)) {
        (Some(head), Some(tail)) => Some(head + "\n"@ + list + tail),
        _ => None,
    }
}

/// A new index page.
pub open spec fn new_page(title: Seq<char>, list: Seq<char>) -> Seq<char> {
    "# "@ + title + "\n\n"@ + INDEX_START_MARKER@ + "\n"@ + list + INDEX_END_MARKER@ + "\n"@
}

/// The index page of a directory with its list, and what came of it.
pub open spec fn composed(existing: Option<Seq<char>>, title: Seq<char>, list: Seq<char>) -> (
    Seq<char>,
    RewriteOutcome,
) {
    match existing {
        None => (new_page(title, list), RewriteOutcome::Created),
        Some(page) => match with_list(page, list) {
            None => (page, RewriteOutcome::NoMarkers),
            Some(next) => (next, if next == page {
                RewriteOutcome::Unchanged
            } else {
                RewriteOutcome::Updated
            }),
        },
    }
}

/// The index page of a directory with its list, and what came of it.  A page
/// that is not there is made; one whose author took the marks out is left
/// alone; of any other one, only what is between the marks changes.
pub fn compose_index_md(existing: Option<&str>, title: &str, list: &str) -> (out: (
    String,
    RewriteOutcome,
))
    ensures
        (out.0@, out.1) == composed(opt_str_view(existing), title@, list@),
{
    let page = match existing {
        Some(page) => page,
        None => {
            let mut fresh = cat3("# ", title, "\n\n");
            fresh.append(INDEX_START_MARKER);
            fresh.append("\n");
            fresh.append(list);
            fresh.append(INDEX_END_MARKER);
            fresh.append("\n");
            return (fresh, RewriteOutcome::Created);
        },
    };
    let letters = chars_of(page);
    let start = chars_of(INDEX_START_MARKER);
    let end = chars_of(INDEX_END_MARKER);
    let total: usize = letters.len();
    let from: usize = match find_text(&letters, &start) {
        Some(at) => at + start.len(),
        None => {
            return (owned(page), RewriteOutcome::NoMarkers);
        },
    };
    let head = text_between(&letters, 0, from);
    let rest = text_between(&letters, from, total);
    proof {
        assert(head@ =~= page@.take(from as int));
        assert(rest@ =~= page@.skip(from as int));
        assert(head@.len() == from);
    }
    let behind = chars_of(rest.as_str());
    let to: usize = match find_text(&behind, &end) {
        Some(at) => at,
        None => {
            return (owned(page), RewriteOutcome::NoMarkers);
        },
    };
    let tail = text_between(&behind, to, behind.len());
    proof {
        assert(tail@ =~= rest@.skip(to as int));
    }
    let mut next = cat3(head.as_str(), "\n", list);
    next.append(tail.as_str());
    if same(next.as_str(), page) {
        (next, RewriteOutcome::Unchanged)
    } else {
        (next, RewriteOutcome::Updated)
    }
}

/// What the author wrote outside the marks is kept verbatim: the page begins and
/// ends as it did.
pub proof fn prose_outside_the_marks_is_kept(page: Seq<char>, list: Seq<char>)
    requires
        with_list(page, list) is Some,
    ensures
        ({
            let head = before_list(page)->0;
            let tail = after_list(page)->0;
            &&& page.take(head.len() as int) == head
            &&& page.skip(page.len() - tail.len()) == tail
            &&& with_list(page, list) == Some(head + "\n"@ + list + tail)
        }),
{
    let at = first_place(page, INDEX_START_MARKER@, 0)->0;
    first_place_is_first(page, INDEX_START_MARKER@, 0);
    let head = before_list(page)->0;
    let rest = page.skip(head.len() as int);
    first_place_is_first(rest, INDEX_END_MARKER@, 0);
    let to = first_place(rest, INDEX_END_MARKER@, 0)->0;
    let tail = after_list(page)->0;
    assert(page.take(head.len() as int) =~= head);
    assert(page.skip(page.len() - tail.len()) =~= tail);
}

/// The mark that ends a list starts with a character that it does not hold again.
proof fn end_mark_does_not_overlap(k: int)
    requires
        0 < k < INDEX_END_MARKER@.len(),
    ensures
        INDEX_END_MARKER@[0] == '<',
        INDEX_END_MARKER@[k] != '<',
{
    reveal_strlit("<!-- HALLOUMINATE:INDEX-END -->");
    let letters = seq![
        '<', '!', '-', '-', ' ', 'H', 'A', 'L', 'L', 'O', 'U', 'M', 'I', 'N', 'A', 'T', 'E', ':',
        'I', 'N', 'D', 'E', 'X', '-', 'E', 'N', 'D', ' ', '-', '-', '>',
    ];
    assert(INDEX_END_MARKER@ =~= letters);
    assert(letters[k] != '<');
}

/// The list is found again where it was put, so that putting it there once more
/// changes nothing.  This is so for a list that does not hold the mark that ends
/// it.
pub proof fn lists_are_put_in_once(page: Seq<char>, list: Seq<char>)
    requires
        with_list(page, list) is Some,
        first_place(list, INDEX_END_MARKER@, 0) is None,
    ensures
        with_list(with_list(page, list)->0, list) == with_list(page, list),
{
    reveal_strlit("\n");
    reveal_strlit("<!-- HALLOUMINATE:INDEX-START -->");
    reveal_strlit("<!-- HALLOUMINATE:INDEX-END -->");
    let start = INDEX_START_MARKER@;
    let end = INDEX_END_MARKER@;
    let next = with_list(page, list)->0;
    let at = first_place(page, start, 0)->0;
    first_place_is_first(page, start, 0);
    let head = before_list(page)->0;
    let tail = after_list(page)->0;
    let rest = page.skip(head.len() as int);
    first_place_is_first(rest, end, 0);
    let to = first_place(rest, end, 0)->0;
    assert(next.take(head.len() as int) =~= head);
    assert(stands_at(next, start, at)) by {
        assert(next.subrange(at, at + start.len()) =~= page.subrange(at, at + start.len()));
    }
    assert forall|i: int| 0 <= i < at implies !#[trigger] stands_at(next, start, i) by {
        if stands_at(next, start, i) {
            assert(page.subrange(i, i + start.len()) =~= next.subrange(i, i + start.len()));
            assert(stands_at(page, start, i));
        }
    }
    only_place_is_first(next, start, 0, at);
    assert(before_list(next) == Some(head));
    let body = "\n"@ + list;
    let behind = next.skip(head.len() as int);
    assert(behind =~= body + tail);
    let place = body.len() as int;
    assert(tail.subrange(0, end.len() as int) =~= rest.subrange(to, to + end.len()));
    assert(tail[0] == end[0]) by {
        assert(tail.subrange(0, end.len() as int)[0] == tail[0]);
    }
    assert(stands_at(behind, end, place)) by {
        assert(behind.subrange(place, place + end.len()) =~= tail.subrange(0, end.len() as int));
    }
    first_place_is_first(list, end, 0);
    assert forall|i: int| 0 <= i < place implies !#[trigger] stands_at(behind, end, i) by {
        if stands_at(behind, end, i) {
            let found = behind.subrange(i, i + end.len());
            end_mark_does_not_overlap(1);
            assert(found[0] == behind[i]);
            assert(behind[i] == body[i]);
            assert(i > 0);
            if i + end.len() <= place {
                assert(list.subrange(i - 1, i - 1 + end.len()) =~= found);
                assert(stands_at(list, end, i - 1));
            } else {
                end_mark_does_not_overlap(place - i);
                assert(found[place - i] == behind[place]);
                assert(behind[place] == tail[0]);
            }
        }
    }
    only_place_is_first(behind, end, 0, place);
    assert(behind.skip(place) =~= tail);
}

/// Whether an index page links to the entry of its directory: to each directory
/// and each other page that is not hidden.
pub open spec fn listed(name: Seq<char>, is_dir: bool) -> bool {
    &&& !has_prefix(name, "."@)
    &&& is_dir || (has_suffix(name, ".md"@) && name != INDEX_FILENAME@)
}

/// Whether an index page links to the entry of its directory.
pub fn is_listed(name: &str, is_dir: bool) -> (out: bool)
    ensures
        out == listed(name@, is_dir),
{
    !starts_with(name, ".") && (is_dir || (ends_with(name, ".md") && !same(name, INDEX_FILENAME)))
}

/// Whether the line is one of the two that front matter stands between.
pub open spec fn is_fence(line: Seq<char>) -> bool {
    trimmed(line) == "---"@
}

/// The first of the lines from `from` on that ends front matter.
pub open spec fn closing_fence(lines: Seq<Seq<char>>, from: int) -> Option<int>
    decreases lines.len() - from,
{
    if from < 0 || from >= lines.len() {
        None
    } else if is_fence(lines[from]) {
        Some(from)
    } else {
        closing_fence(lines, from + 1)
    }
}

/// The first line of a page that is not front matter.
pub open spec fn first_of_body(lines: Seq<Seq<char>>) -> int {
    if lines.len() > 0 && is_fence(lines[0]) {
        match closing_fence(lines, 1) {
            Some(i) => i + 1,
            None => 0,
        }
    } else {
        0
    }
}

/// The first of the lines from `from` on that is not blank.
pub open spec fn first_filled(lines: Seq<Seq<char>>, from: int) -> Option<int>
    decreases lines.len() - from,
{
    if from < 0 || from >= lines.len() {
        None
    } else if !is_blank(lines[from]) {
        Some(from)
    } else {
        first_filled(lines, from + 1)
    }
}

/// The title of a page: its first line that is not blank, behind its front
/// matter, where that is a heading of the first level.
pub open spec fn title(page: Seq<char>) -> Option<Seq<char>> {
    let lines = inclusive_lines(page);
    match first_filled(lines, first_of_body(lines)) {
        Some(i) => if has_prefix(trimmed(lines[i]), "# "@) {
            Some(trimmed(trimmed(lines[i]).skip(2)))
        } else {
            None
        },
        None => None,
    }
}

fn fence_line(line: &str) -> (out: bool)
    ensures
        out == is_fence(line@),
{
    let text = trim_text(line);
    same(text.as_str(), "---")
}

fn find_body(lines: &Vec<String>) -> (out: usize)
    ensures
        out == first_of_body(views(lines@)),
        out <= lines@.len(),
{
    let ghost all = views(lines@);
    if lines.len() == 0 || !fence_line(lines[0].as_str()) {
        return 0;
    }
    let mut i: usize = 1;
    while i < lines.len()
        invariant
            all == views(lines@),
            1 <= i <= lines.len(),
            is_fence(all[0]),
            closing_fence(all, 1) == closing_fence(all, i as int),
        decreases lines.len() - i,
    {
        if fence_line(lines[i].as_str()) {
            return i + 1;
        }
        i = i + 1;
    }
    0
}

/// The title of a page.
pub fn title_of(page: &str) -> (out: Option<String>)
    ensures
        opt_view(out) == title(page@),
{
    let lines = split_lines(page);
    let ghost all = views(lines@);
    let start: usize = find_body(&lines);
    let mut i: usize = start;
    while i < lines.len()
        invariant
            all == views(lines@),
            all == inclusive_lines(page@),
            start == first_of_body(all),
            start <= i <= lines.len(),
            first_filled(all, start as int) == first_filled(all, i as int),
        decreases lines.len() - i,
    {
        if !blank(lines[i].as_str()) {
            let text = trim_text(lines[i].as_str());
            if !starts_with(text.as_str(), "# ") {
                return None;
            }
            proof {
                reveal_strlit("# ");
            }
            let letters = chars_of(text.as_str());
            let rest = text_between(&letters, 2, letters.len());
            proof {
                assert(rest@ =~= text@.skip(2));
            }
            return Some(trim_text(rest.as_str()));
        }
        i = i + 1;
    }
    None
}

/// A page links to the directories in its directory and to the other pages
/// there, and to nothing whose name starts with a dot.
pub proof fn links_lead_to_pages_and_directories(name: Seq<char>, is_dir: bool)
    ensures
        listed(name, is_dir) <==> {
            &&& name.len() == 0 || name[0] != '.'
            &&& is_dir || ((exists|base: Seq<char>| name == #[trigger] (base + ".md"@)) && name
                != "index.md"@)
        },
{
    reveal_strlit(".");
    reveal_strlit(".md");
    if name.len() > 0 {
        assert(name.take(1)[0] == name[0]);
        if name[0] == '.' {
            assert(name.take(1) =~= "."@);
        }
    }
    if has_suffix(name, ".md"@) {
        assert(name =~= name.take(name.len() - 3) + ".md"@);
    }
    if exists|base: Seq<char>| name == #[trigger] (base + ".md"@) {
        let base = choose|base: Seq<char>| name == #[trigger] (base + ".md"@);
        assert(name.skip(name.len() - 3) =~= ".md"@);
    }
}

/// The line about a page shows its name without the extension and leads to the
/// page; the line about a directory leads to the index page in it.  Both end
/// with what the entry is about, where that is known.
pub proof fn lines_lead_to_what_they_name(base: Seq<char>, gloss: Seq<char>)
    ensures
        entry_line(EntryModel { name: base + ".md"@, is_dir: false, gloss: Some(gloss) }) == "- ["@
            + base + "](./"@ + base + ".md) — "@ + gloss + "\n"@,
        entry_line(EntryModel { name: base + ".md"@, is_dir: false, gloss: None }) == "- ["@ + base
            + "](./"@ + base + ".md)\n"@,
        entry_line(EntryModel { name: base, is_dir: true, gloss: Some(gloss) }) == "- ["@ + base
            + "/](./"@ + base + "/index.md) — "@ + gloss + "\n"@,
        entry_line(EntryModel { name: base, is_dir: true, gloss: None }) == "- ["@ + base
            + "/](./"@ + base + "/index.md)\n"@,
{
    reveal_strlit("- [");
    reveal_strlit("- ");
    reveal_strlit("[");
    reveal_strlit(".md) — ");
    reveal_strlit(".md)\n");
    reveal_strlit(".md");
    reveal_strlit(")");
    reveal_strlit(" — ");
    reveal_strlit("\n");
    reveal_strlit("/index.md)");
    reveal_strlit("/index.md) — ");
    reveal_strlit("/index.md)\n");
    let name = base + ".md"@;
    assert(name.skip(name.len() - 3) =~= ".md"@);
    assert(stem(name) =~= base);
    assert("- ["@ =~= "- "@ + "["@);
    assert(".md) — "@ =~= ".md"@ + ")"@ + " — "@);
    assert(".md)\n"@ =~= ".md"@ + ")"@ + "\n"@);
    assert("/index.md) — "@ =~= "/index.md)"@ + " — "@);
    assert("/index.md)\n"@ =~= "/index.md)"@ + "\n"@);
    assert(entry_line(EntryModel { name, is_dir: false, gloss: Some(gloss) }) =~= "- ["@ + base
        + "](./"@ + base + ".md) — "@ + gloss + "\n"@);
    assert(entry_line(EntryModel { name, is_dir: false, gloss: None }) =~= "- ["@ + base + "](./"@
        + base + ".md)\n"@);
    assert(entry_line(EntryModel { name: base, is_dir: true, gloss: Some(gloss) }) =~= "- ["@ + base
        + "/](./"@ + base + "/index.md) — "@ + gloss + "\n"@);
    assert(entry_line(EntryModel { name: base, is_dir: true, gloss: None }) =~= "- ["@ + base
        + "/](./"@ + base + "/index.md)\n"@);
}

/// The list holds the line of every entry that is linked to, in the order of
/// the entries, and no other line.
pub proof fn every_listed_entry_has_its_line(entries: Seq<IndexEntry>, n: int)
    requires
        0 <= n <= entries.len(),
    ensures
        entry_lines(entries, n) == flat(
            entries.take(n).filter(
                |entry: IndexEntry| listed(entry@.name, entry@.is_dir),
            ).map_values(|entry: IndexEntry| entry_line(entry@)),
        ),
    decreases n,
{
    reveal(Seq::filter);
    let keep = |entry: IndexEntry| listed(entry@.name, entry@.is_dir);
    let line = |entry: IndexEntry| entry_line(entry@);
    let front = entries.take(n);
    if n > 0 {
        every_listed_entry_has_its_line(entries, n - 1);
        assert(front.drop_last() =~= entries.take(n - 1));
        let before = entries.take(n - 1).filter(keep).map_values(line);
        let now = front.filter(keep).map_values(line);
        if keep(entries[n - 1]) {
            assert(now =~= before.push(line(entries[n - 1])));
            assert(now.drop_last() =~= before);
        } else {
            assert(now =~= before);
        }
    } else {
        assert(front.filter(keep).map_values(line) =~= Seq::<Seq<char>>::empty());
    }
}

/// The list takes the place of what stands between the first mark that starts a
/// list and the first mark behind it that ends one.  The marks stay, and so does
/// all that stands before the one and behind the other.
pub proof fn lists_take_the_place_between_the_marks(
    front: Seq<char>,
    between: Seq<char>,
    back: Seq<char>,
    list: Seq<char>,
)
    requires
        forall|i: int|
            0 <= i < front.len() ==> !#[trigger] stands_at(
                front + INDEX_START_MARKER@ + between + INDEX_END_MARKER@ + back,
                INDEX_START_MARKER@,
                i,
            ),
        forall|i: int|
            0 <= i < between.len() ==> !#[trigger] stands_at(
                between + INDEX_END_MARKER@ + back,
                INDEX_END_MARKER@,
                i,
            ),
    ensures
        with_list(front + INDEX_START_MARKER@ + between + INDEX_END_MARKER@ + back, list) == Some(
            front + INDEX_START_MARKER@ + "\n"@ + list + INDEX_END_MARKER@ + back,
        ),
{
    let page = front + INDEX_START_MARKER@ + between + INDEX_END_MARKER@ + back;
    let start = INDEX_START_MARKER@;
    let end = INDEX_END_MARKER@;
    let at = front.len() as int;
    assert(page.subrange(at, at + start.len()) =~= start);
    only_place_is_first(page, start, 0, at);
    let head = before_list(page)->0;
    assert(head =~= front + start);
    let rest = page.skip(head.len() as int);
    assert(rest =~= between + end + back);
    let to = between.len() as int;
    assert(rest.subrange(to, to + end.len()) =~= end);
    only_place_is_first(rest, end, 0, to);
    assert(rest.skip(to) =~= end + back);
    assert(head + "\n"@ + list + (end + back) =~= front + start + "\n"@ + list + end + back);
}

/// A page that lacks the mark that starts a list, or one behind it that ends a
/// list, takes no list.
pub proof fn pages_without_marks_take_no_list(page: Seq<char>, list: Seq<char>)
    ensures
        with_list(page, list) is None <==> forall|i: int, j: int|
            i + INDEX_START_MARKER@.len() <= j ==> !(#[trigger] stands_at(
                page,
                INDEX_START_MARKER@,
                i,
            ) && #[trigger] stands_at(page, INDEX_END_MARKER@, j)),
{
    let start = INDEX_START_MARKER@;
    let end = INDEX_END_MARKER@;
    first_place_is_first(page, start, 0);
    if before_list(page) is Some {
        let at = first_place(page, start, 0)->0;
        let head = before_list(page)->0;
        let from = head.len() as int;
        let rest = page.skip(from);
        first_place_is_first(rest, end, 0);
        if after_list(page) is Some {
            let to = first_place(rest, end, 0)->0;
            assert(page.subrange(from + to, from + to + end.len()) =~= rest.subrange(
                to,
                to + end.len(),
            ));
            assert(stands_at(page, end, from + to));
            assert(stands_at(page, start, at));
        } else {
            assert forall|i: int, j: int| i + start.len() <= j implies !(#[trigger] stands_at(
                page,
                start,
                i,
            ) && #[trigger] stands_at(page, end, j)) by {
                if stands_at(page, start, i) && stands_at(page, end, j) {
                    assert(at <= i);
                    let k = j - from;
                    assert(rest.subrange(k, k + end.len()) =~= page.subrange(j, j + end.len()));
                    assert(stands_at(rest, end, k));
                }
            }
        }
    }
}

/// A page that is not there is made, with its title and the list between the
/// marks; one that takes no list stays as it is; and of another one it is said
/// whether it has changed.
pub proof fn index_pages_are_made_kept_or_changed(
    page: Seq<char>,
    title: Seq<char>,
    list: Seq<char>,
)
    ensures
        composed(None, title, list) == (
            "# "@ + title + "\n\n"@ + "<!-- HALLOUMINATE:INDEX-START -->"@ + "\n"@ + list
                + "<!-- HALLOUMINATE:INDEX-END -->"@ + "\n"@,
            RewriteOutcome::Created,
        ),
        with_list(page, list) is None ==> composed(Some(page), title, list) == (
            page,
            RewriteOutcome::NoMarkers,
        ),
        with_list(page, list) == Some(page) ==> composed(Some(page), title, list) == (
            page,
            RewriteOutcome::Unchanged,
        ),
        forall|next: Seq<char>|
            next != page && with_list(page, list) == Some(next) ==> #[trigger] composed(
                Some(page),
                title,
                list,
            ) == (next, RewriteOutcome::Updated),
{
}

proof fn first_filled_is_first(lines: Seq<Seq<char>>, from: int, i: int)
    requires
        0 <= from <= i <= lines.len(),
        forall|j: int| from <= j < i ==> is_blank(#[trigger] lines[j]),
        i < lines.len() ==> !is_blank(lines[i]),
    ensures
        first_filled(lines, from) == if i < lines.len() {
            Some(i)
        } else {
            None
        },
    decreases i - from,
{
    if from < i {
        assert(is_blank(lines[from]));
        first_filled_is_first(lines, from + 1, i);
    }
}

proof fn closing_fence_is_first(lines: Seq<Seq<char>>, from: int, i: int)
    requires
        0 <= from <= i <= lines.len(),
        forall|j: int| from <= j < i ==> trimmed(#[trigger] lines[j]) != "---"@,
        i < lines.len() ==> trimmed(lines[i]) == "---"@,
    ensures
        closing_fence(lines, from) == if i < lines.len() {
            Some(i)
        } else {
            None
        },
    decreases i - from,
{
    if from < i {
        assert(trimmed(lines[from]) != "---"@);
        closing_fence_is_first(lines, from + 1, i);
    }
}

/// The title of a page is what its first heading says, where nothing but blank
/// lines stand before that: at the start of the page, or behind front matter
/// that starts with the first line and ends with line `close`.
pub proof fn titles_are_first_headings(page: Seq<char>, close: int, i: int)
    requires
        ({
            let lines = inclusive_lines(page);
            &&& 0 <= i < lines.len()
            &&& !is_blank(lines[i])
            &&& if close == 0 {
                // No front matter: the first line does not start any, or nothing ends it.
                &&& forall|j: int| 0 <= j < i ==> is_blank(#[trigger] lines[j])
                &&& trimmed(lines[0]) != "---"@ || forall|j: int|
                    1 <= j < lines.len() ==> trimmed(#[trigger] lines[j]) != "---"@
            } else {
                &&& 0 < close < i
                &&& trimmed(lines[0]) == "---"@
                &&& trimmed(lines[close]) == "---"@
                &&& forall|j: int| 1 <= j < close ==> trimmed(#[trigger] lines[j]) != "---"@
                &&& forall|j: int| close < j < i ==> is_blank(#[trigger] lines[j])
            }
        }),
    ensures
        forall|text: Seq<char>|
            trimmed(inclusive_lines(page)[i]) == #[trigger] ("# "@ + text) ==> title(page) == Some(
                trimmed(text),
            ),
        (forall|text: Seq<char>|
            trimmed(inclusive_lines(page)[i]) != #[trigger] ("# "@ + text)) ==> title(page) is None,
{
    let lines = inclusive_lines(page);
    reveal_strlit("# ");
    if close == 0 {
        if trimmed(lines[0]) == "---"@ {
            closing_fence_is_first(lines, 1, lines.len() as int);
        }
        assert(first_of_body(lines) == 0);
        first_filled_is_first(lines, 0, i);
    } else {
        closing_fence_is_first(lines, 1, close);
        assert(first_of_body(lines) == close + 1);
        first_filled_is_first(lines, close + 1, i);
    }
    let line = trimmed(lines[i]);
    assert forall|text: Seq<char>| line == #[trigger] ("# "@ + text) implies title(page) == Some(
        trimmed(text),
    ) by {
        assert(line.take(2) =~= "# "@);
        assert(line.skip(2) =~= text);
    }
    if has_prefix(line, "# "@) {
        assert(line =~= "# "@ + line.skip(2));
    }
}

/// A page that holds nothing but blank lines has no title.
pub proof fn blank_pages_have_no_title(page: Seq<char>)
    requires
        forall|i: int|
            0 <= i < inclusive_lines(page).len() ==> is_blank(#[trigger] inclusive_lines(page)[i]),
    ensures
        title(page) is None,
{
    let lines = inclusive_lines(page);
    assert(first_of_body(lines) == 0) by {
        if lines.len() > 0 {
            crate::text::blank_trims_to_nothing(lines[0]);
            reveal_strlit("---");
            assert(is_blank(lines[0]));
        }
    }
    first_filled_is_first(lines, 0, lines.len() as int);
}

} // verus!
