//! The headings of a markdown page, and what its author may want to mend.

use vstd::prelude::*;

use crate::daemon::edit::{headings_fit, Heading};
use crate::text::{
    blank, cat2, cat3, cat4, chars_of, decimal, decimal_text, find_text, first_place,
    first_place_is_first, has_prefix, inclusive_lines, is_blank, line_text, same, split_lines,
    stands_at, starts_with, text_between, text_of_line, trim_text, trimmed, views,
};

verus! {

/// Whether the line opens or closes a block of code.
pub open spec fn is_code_fence(line: Seq<char>) -> bool {
    has_prefix(trimmed(line), "```"@) || has_prefix(trimmed(line), "~~~"@)
}

/// Whether a block of code is open before line `i`.
pub open spec fn in_code(lines: Seq<Seq<char>>, i: int) -> bool
    decreases i,
{
    if i <= 0 {
        false
    } else {
        in_code(lines, i - 1) != is_code_fence(lines[i - 1])
    }
}

/// With how many `#` the text starts.
pub open spec fn hashes(s: Seq<char>) -> nat
    decreases s.len(),
{
    if s.len() > 0 && s[0] == '#' {
        1 + hashes(s.skip(1))
    } else {
        0
    }
}

/// Whether what the line says is a heading: one to six `#`, and then a space or
/// nothing.
pub open spec fn is_heading(text: Seq<char>) -> bool {
    let level = hashes(text) as int;
    &&& 1 <= level <= 6
    &&& text.len() == level || text[level] == ' ' || text[level] == '\t'
}

/// Whether line `i` is a heading.
pub open spec fn heading_at(lines: Seq<Seq<char>>, i: int) -> bool {
    !in_code(lines, i) && is_heading(line_text(lines[i]))
}

/// The lines before `n` that are headings, in their order.
pub open spec fn heading_lines(lines: Seq<Seq<char>>, n: int) -> Seq<int>
    decreases n,
{
    if n <= 0 {
        Seq::empty()
    } else if heading_at(lines, n - 1) {
        heading_lines(lines, n - 1).push(n - 1)
    } else {
        heading_lines(lines, n - 1)
    }
}

/// Whether the heading is the one on line `i`.
pub open spec fn is_heading_of(heading: Heading, lines: Seq<Seq<char>>, i: int) -> bool {
    let text = line_text(lines[i]);
    &&& heading.first == i
    &&& heading.after == i + 1
    &&& heading.level == hashes(text)
    &&& heading.text@ == trimmed(text.skip(hashes(text) as int))
}

/// Whether these are the headings on the given lines.
pub open spec fn are_headings_of(
    headings: Seq<Heading>,
    lines: Seq<Seq<char>>,
    places: Seq<int>,
) -> bool {
    &&& headings.len() == places.len()
    &&& forall|k: int|
        0 <= k < headings.len() ==> is_heading_of(#[trigger] headings[k], lines, places[k])
}

fn code_fence(line: &str) -> (out: bool)
    ensures
        out == is_code_fence(line@),
{
    let text = trim_text(line);
    starts_with(text.as_str(), "```") || starts_with(text.as_str(), "~~~")
}

fn count_hashes(letters: &Vec<char>) -> (out: usize)
    ensures
        out == hashes(letters@),
        out <= letters@.len(),
{
    let mut n: usize = 0;
    proof {
        assert(letters@.skip(0) =~= letters@);
    }
    while n < letters.len() && letters[n] == '#'
        invariant
            n <= letters.len(),
            hashes(letters@) == n + hashes(letters@.skip(n as int)),
        decreases letters.len() - n,
    {
        proof {
            assert(letters@.skip(n as int)[0] == letters@[n as int]);
            assert(letters@.skip(n as int).skip(1) =~= letters@.skip(n + 1));
        }
        n = n + 1;
    }
    proof {
        if n < letters@.len() {
            assert(letters@.skip(n as int)[0] == letters@[n as int]);
        }
    }
    n
}

/// The headings of a page, in their order; what looks like one in a block of
/// code is none.
pub fn headings_of(page: &str) -> (out: Vec<Heading>)
    ensures
        ({
            let lines = inclusive_lines(page@);
            are_headings_of(out@, lines, heading_lines(lines, lines.len() as int))
        }),
        headings_fit(out@, inclusive_lines(page@).len()),
{
    let lines = split_lines(page);
    let ghost all = views(lines@);
    let mut out: Vec<Heading> = Vec::new();
    let mut open = false;
    for i in 0..lines.len()
        invariant
            all == views(lines@),
            all == inclusive_lines(page@),
            open == in_code(all, i as int),
            are_headings_of(out@, all, heading_lines(all, i as int)),
            headings_fit(out@, all.len()),
            forall|k: int| 0 <= k < out@.len() ==> (#[trigger] out@[k]).after <= i,
    {
        let line = lines[i].as_str();
        let text = text_of_line(line);
        let letters = chars_of(text.as_str());
        let level: usize = count_hashes(&letters);
        let total: usize = letters.len();
        if !open && 1 <= level && level <= 6 && (total == level || letters[level] == ' '
            || letters[level] == '\t') {
            let rest = text_between(&letters, level, total);
            proof {
                assert(rest@ =~= text@.skip(level as int));
            }
            let ghost before = out@;
            let ghost places = heading_lines(all, i as int);
            out.push(
                Heading { first: i, after: i + 1, level, text: trim_text(rest.as_str()) },
            );
            proof {
                assert(heading_lines(all, i + 1) == places.push(i as int));
                assert forall|k: int| 0 <= k < out@.len() implies is_heading_of(
                    #[trigger] out@[k],
                    all,
                    places.push(i as int)[k],
                ) by {
                    if k < before.len() {
                        assert(out@[k] == before[k]);
                    }
                }
                assert forall|a: int| 0 <= a < out@.len() implies (#[trigger] out@[a]).first
                    < out@[a].after <= all.len() by {
                    if a < before.len() {
                        assert(out@[a] == before[a]);
                    }
                }
                assert forall|a: int, b: int| 0 <= a < b < out@.len() implies (
                #[trigger] out@[a]).after <= (#[trigger] out@[b]).first by {
                    assert(out@[a] == before[a]);
                    if b < before.len() {
                        assert(out@[b] == before[b]);
                    }
                }
            }
        }
        if code_fence(line) {
            open = !open;
        }
    }
    out
}

/// The remark on a heading that skips levels.
pub open spec fn jump_remark(from: nat, to: nat, line: nat) -> Seq<char> {
    "heading level jumps from "@ + decimal(from) + " to "@ + (decimal(to) + " on line "@ + decimal(
        line,
    ))
}

/// The level of the heading on line `i`.
pub open spec fn level_at(lines: Seq<Seq<char>>, i: int) -> nat {
    hashes(line_text(lines[i]))
}

/// The remarks on the first `n` of the headings that skip levels.
pub open spec fn jump_remarks(lines: Seq<Seq<char>>, places: Seq<int>, n: int) -> Seq<Seq<char>>
    decreases n,
{
    if n <= 1 {
        Seq::empty()
    } else {
        let before = jump_remarks(lines, places, n - 1);
        let from = level_at(lines, places[n - 2]);
        let to = level_at(lines, places[n - 1]);
        if to > from + 1 {
            before.push(jump_remark(from, to, (places[n - 1] + 1) as nat))
        } else {
            before
        }
    }
}

/// Whether the line links to nowhere.
pub open spec fn has_empty_link(line: Seq<char>) -> bool {
    first_place(line, "]()"@, 0) is Some
}

/// Whether the line opens a diagram.
pub open spec fn opens_diagram(line: Seq<char>) -> bool {
    trimmed(line) == "```mermaid"@
}

/// Whether from line `i` on nothing but blank lines come before the end of the
/// block of code, or of the page.
pub open spec fn nothing_before_fence(lines: Seq<Seq<char>>, i: int) -> bool
    decreases lines.len() - i,
{
    if i < 0 || i >= lines.len() || is_code_fence(lines[i]) {
        true
    } else {
        is_blank(lines[i]) && nothing_before_fence(lines, i + 1)
    }
}

/// The remark on line `i`, if there is one.
pub open spec fn line_remark(lines: Seq<Seq<char>>, i: int) -> Option<Seq<char>> {
    if in_code(lines, i) {
        None
    } else if opens_diagram(lines[i]) && nothing_before_fence(lines, i + 1) {
        Some("empty mermaid block on line "@ + decimal((i + 1) as nat))
    } else if has_empty_link(lines[i]) {
        Some("link without a destination on line "@ + decimal((i + 1) as nat))
    } else {
        None
    }
}

/// The remarks on the first `n` lines.
pub open spec fn line_remarks(lines: Seq<Seq<char>>, n: int) -> Seq<Seq<char>>
    decreases n,
{
    if n <= 0 {
        Seq::empty()
    } else {
        match line_remark(lines, n - 1) {
            Some(remark) => line_remarks(lines, n - 1).push(remark),
            None => line_remarks(lines, n - 1),
        }
    }
}

fn is_empty_block(lines: &Vec<String>, from: usize) -> (out: bool)
    requires
        from <= lines.len(),
    ensures
        out == nothing_before_fence(views(lines@), from as int),
{
    let ghost all = views(lines@);
    let mut i: usize = from;
    while i < lines.len()
        invariant
            all == views(lines@),
            from <= i <= lines.len(),
            nothing_before_fence(all, from as int) == nothing_before_fence(all, i as int),
        decreases lines.len() - i,
    {
        if code_fence(lines[i].as_str()) {
            return true;
        }
        if !blank(lines[i].as_str()) {
            return false;
        }
        i = i + 1;
    }
    true
}

fn empty_link(line: &str) -> (out: bool)
    ensures
        out == has_empty_link(line@),
{
    let letters = chars_of(line);
    let wanted = chars_of("]()");
    match find_text(&letters, &wanted) {
        Some(_) => true,
        None => false,
    }
}

/// What the author of a page may want to mend: links without a destination,
/// empty diagrams, and headings that skip levels.
pub open spec fn lint_remarks(page: Seq<char>) -> Seq<Seq<char>> {
    let lines = inclusive_lines(page);
    let places = heading_lines(lines, lines.len() as int);
    line_remarks(lines, lines.len() as int) + jump_remarks(lines, places, places.len() as int)
}

/// What the author of a page may want to mend.
pub fn lint_markdown(page: &str) -> (out: Vec<String>)
    ensures
        views(out@) == lint_remarks(page@),
{
    let lines = split_lines(page);
    let ghost all = views(lines@);
    let headings = headings_of(page);
    let mut out: Vec<String> = Vec::new();
    let mut open = false;
    proof {
        assert(views(out@) =~= line_remarks(all, 0));
    }
    for i in 0..lines.len()
        invariant
            all == views(lines@),
            open == in_code(all, i as int),
            views(out@) == line_remarks(all, i as int),
    {
        let ghost before = views(out@);
        let line = lines[i].as_str();
        if !open {
            let text = trim_text(line);
            if same(text.as_str(), "```mermaid") && is_empty_block(&lines, i + 1) {
                let number = decimal_text((i + 1) as u64);
                out.push(cat2("empty mermaid block on line ", number.as_str()));
            } else if empty_link(line) {
                let number = decimal_text((i + 1) as u64);
                out.push(cat2("link without a destination on line ", number.as_str()));
            }
        }
        proof {
            match line_remark(all, i as int) {
                Some(remark) => {
                    assert(views(out@) =~= before.push(remark));
                },
                None => {},
            }
        }
        if code_fence(line) {
            open = !open;
        }
    }
    let ghost first = views(out@);
    let ghost places = heading_lines(all, all.len() as int);
    proof {
        assert(first + jump_remarks(all, places, 1) =~= first);
        assert(first + jump_remarks(all, places, 0) =~= first);
    }
    let count: usize = headings.len();
    let mut k: usize = 1;
    while k < count
        invariant
            count == headings.len(),
            1 <= k,
            count >= 1 ==> k <= count,
            count == 0 ==> k == 1,
            headings_fit(headings@, all.len()),
            are_headings_of(headings@, all, places),
            all.len() <= usize::MAX,
            views(out@) == first + jump_remarks(all, places, k as int),
        decreases count - k,
    {
        let ghost before = views(out@);
        let last = &headings[k];
        let prior: usize = headings[k - 1].level;
        proof {
            assert(headings@[k as int].first < headings@[k as int].after);
            assert(is_heading_of(headings@[k as int], all, places[k as int]));
            assert(is_heading_of(headings@[k - 1], all, places[k - 1]));
        }
        if last.level > prior && last.level - prior > 1 {
            let a = decimal_text(prior as u64);
            let b = decimal_text(last.level as u64);
            let n = decimal_text((last.first + 1) as u64);
            let tail = cat3(b.as_str(), " on line ", n.as_str());
            out.push(cat4("heading level jumps from ", a.as_str(), " to ", tail.as_str()));
            proof {
                let remark = jump_remark(
                    prior as nat,
                    last.level as nat,
                    (last.first + 1) as nat,
                );
                assert(views(out@) =~= before.push(remark));
                assert(first + jump_remarks(all, places, k as int).push(remark) =~= before.push(
                    remark,
                ));
            }
        }
        k = k + 1;
    }
    out
}

/// A block of code is opened and closed by a line that begins, but for white
/// space, with three backticks or three tildes.
pub proof fn fences_are_three_of_a_kind(line: Seq<char>)
    ensures
        is_code_fence(line) <==> trimmed(line).len() >= 3 && ((forall|i: int|
            0 <= i < 3 ==> #[trigger] trimmed(line)[i] == '`') || (forall|i: int|
            0 <= i < 3 ==> #[trigger] trimmed(line)[i] == '~')),
{
    reveal_strlit("```");
    reveal_strlit("~~~");
    let t = trimmed(line);
    if t.len() >= 3 {
        let front = t.take(3);
        assert forall|i: int| 0 <= i < 3 implies front[i] == #[trigger] t[i] by {}
        if forall|i: int| 0 <= i < 3 ==> #[trigger] t[i] == '`' {
            assert(front =~= "```"@);
        }
        if forall|i: int| 0 <= i < 3 ==> #[trigger] t[i] == '~' {
            assert(front =~= "~~~"@);
        }
        if front == "```"@ {
            assert(front[0] == '`' && front[1] == '`' && front[2] == '`');
        }
        if front == "~~~"@ {
            assert(front[0] == '~' && front[1] == '~' && front[2] == '~');
        }
    }
}

/// No block of code is open at the start of a page, and each line that opens or
/// closes one changes whether one is open.
pub proof fn fences_open_and_close_code(lines: Seq<Seq<char>>, i: int)
    requires
        0 <= i < lines.len(),
    ensures
        !in_code(lines, 0),
        is_code_fence(lines[i]) ==> in_code(lines, i + 1) == !in_code(lines, i),
        !is_code_fence(lines[i]) ==> in_code(lines, i + 1) == in_code(lines, i),
{
}

/// With how many `#` a text starts: they are all `#`, and what follows is not.
pub proof fn hashes_are_counted(s: Seq<char>)
    ensures
        hashes(s) <= s.len(),
        forall|i: int| 0 <= i < hashes(s) ==> #[trigger] s[i] == '#',
        hashes(s) < s.len() ==> s[hashes(s) as int] != '#',
    decreases s.len(),
{
    if s.len() > 0 && s[0] == '#' {
        hashes_are_counted(s.skip(1));
        assert forall|i: int| 0 <= i < hashes(s) implies #[trigger] s[i] == '#' by {
            if i > 0 {
                assert(s.skip(1)[i - 1] == s[i]);
            }
        }
    }
}

/// Whether what a line says is a heading of the level: so many `#`, one to six of
/// them, and behind them a blank, or nothing.
pub open spec fn is_heading_of_level(text: Seq<char>, level: int) -> bool {
    &&& 1 <= level <= 6
    &&& level <= text.len()
    &&& forall|i: int| 0 <= i < level ==> #[trigger] text[i] == '#'
    &&& level == text.len() || text[level] == ' ' || text[level] == '\t'
}

/// A line is a heading of a level exactly where it says so, and that is the level.
pub proof fn headings_begin_with_hashes(text: Seq<char>)
    ensures
        is_heading(text) <==> exists|level: int| is_heading_of_level(text, level),
        forall|level: int| #[trigger]
            is_heading_of_level(text, level) ==> hashes(text) == level,
{
    hashes_are_counted(text);
    assert forall|level: int| #[trigger] is_heading_of_level(text, level) implies hashes(text)
        == level by {
        if hashes(text) < level {
            assert(text[hashes(text) as int] == '#');
        }
        if level < hashes(text) {
            assert(text[level] == '#');
        }
    }
    if is_heading(text) {
        assert(is_heading_of_level(text, hashes(text) as int));
    }
}

proof fn heading_lines_are_in_order(lines: Seq<Seq<char>>, n: int)
    requires
        0 <= n <= lines.len(),
    ensures
        forall|k: int|
            0 <= k < heading_lines(lines, n).len() ==> 0 <= (#[trigger] heading_lines(lines, n)[k])
                < n && heading_at(lines, heading_lines(lines, n)[k]),
        forall|k: int, l: int|
            0 <= k < l < heading_lines(lines, n).len() ==> #[trigger] heading_lines(lines, n)[k]
                < #[trigger] heading_lines(lines, n)[l],
        forall|i: int|
            0 <= i < n && #[trigger] heading_at(lines, i) ==> heading_lines(lines, n).contains(i),
    decreases n,
{
    if n > 0 {
        heading_lines_are_in_order(lines, n - 1);
        let before = heading_lines(lines, n - 1);
        let now = heading_lines(lines, n);
        assert forall|k: int| 0 <= k < now.len() implies 0 <= (#[trigger] now[k]) < n && heading_at(
            lines,
            now[k],
        ) by {
            if k < before.len() {
                assert(now[k] == before[k]);
            }
        }
        assert forall|k: int, l: int| 0 <= k < l < now.len() implies #[trigger] now[k]
            < #[trigger] now[l] by {
            assert(now[k] == before[k]);
            if l < before.len() {
                assert(now[l] == before[l]);
            }
        }
        assert forall|i: int| 0 <= i < n && #[trigger] heading_at(lines, i) implies now.contains(
            i,
        ) by {
            if i == n - 1 {
                assert(now[now.len() - 1] == i);
            } else {
                let k = choose|k: int| 0 <= k < before.len() && before[k] == i;
                assert(now[k] == i);
            }
        }
    }
}

/// The headings of a page are its lines that are headings and stand in no block of
/// code, each of them once, in their order; each has the level of its `#` and says
/// what stands behind them.
pub proof fn headings_are_found_where_they_stand(
    page: Seq<char>,
    headings: Seq<Heading>,
    i: int,
    level: int,
)
    requires
        ({
            let lines = inclusive_lines(page);
            are_headings_of(headings, lines, heading_lines(lines, lines.len() as int))
        }),
        0 <= i < inclusive_lines(page).len(),
    ensures
        !in_code(inclusive_lines(page), i) && is_heading_of_level(
            line_text(inclusive_lines(page)[i]),
            level,
        ) ==> exists|k: int|
            0 <= k < headings.len() && (#[trigger] headings[k]).first == i && headings[k].after == i
                + 1 && headings[k].level == level && headings[k].text@ == trimmed(
                line_text(inclusive_lines(page)[i]).skip(level),
            ),
        forall|k: int|
            0 <= k < headings.len() && (#[trigger] headings[k]).first == i ==> !in_code(
                inclusive_lines(page),
                i,
            ) && is_heading_of_level(
                line_text(inclusive_lines(page)[i]),
                headings[k].level as int,
            ),
        forall|k: int, l: int|
            0 <= k < l < headings.len() ==> (#[trigger] headings[k]).first < (
            #[trigger] headings[l]).first,
{
    let lines = inclusive_lines(page);
    let places = heading_lines(lines, lines.len() as int);
    let text = line_text(lines[i]);
    heading_lines_are_in_order(lines, lines.len() as int);
    headings_begin_with_hashes(text);
    if !in_code(lines, i) && is_heading_of_level(text, level) {
        assert(heading_at(lines, i));
        let k = choose|k: int| 0 <= k < places.len() && places[k] == i;
        assert(is_heading_of(headings[k], lines, places[k]));
        assert(headings[k].first == i);
    }
    assert forall|k: int| 0 <= k < headings.len() && (#[trigger] headings[k]).first == i implies
        !in_code(lines, i) && is_heading_of_level(text, headings[k].level as int) by {
        assert(is_heading_of(headings[k], lines, places[k]));
        assert(heading_at(lines, places[k]));
        let h = choose|h: int| is_heading_of_level(text, h);
        assert(is_heading_of_level(text, h));
    }
    assert forall|k: int, l: int| 0 <= k < l < headings.len() implies (#[trigger] headings[k]).first
        < (#[trigger] headings[l]).first by {
        assert(is_heading_of(headings[k], lines, places[k]));
        assert(is_heading_of(headings[l], lines, places[l]));
        assert(places[k] < places[l]);
    }
}

/// Whether only blank lines stand from line `i` on before line `e`, which closes the
/// block of code, or before the end of the page.
pub open spec fn blank_until(lines: Seq<Seq<char>>, i: int, e: int) -> bool {
    &&& i <= e <= lines.len()
    &&& e == lines.len() || is_code_fence(lines[e])
    &&& forall|k: int| i <= k < e ==> is_blank(#[trigger] lines[k]) && !is_code_fence(lines[k])
}

proof fn fence_ends_it(lines: Seq<Seq<char>>, i: int)
    requires
        0 <= i <= lines.len(),
    ensures
        nothing_before_fence(lines, i) <==> exists|e: int| blank_until(lines, i, e),
    decreases lines.len() - i,
{
    if i < lines.len() && !is_code_fence(lines[i]) {
        let next = i + 1;
        fence_ends_it(lines, next);
        if nothing_before_fence(lines, i) {
            let e = choose|e: int| blank_until(lines, next, e);
            assert(blank_until(lines, i, e));
        }
        if exists|e: int| blank_until(lines, i, e) {
            let e = choose|e: int| blank_until(lines, i, e);
            assert(is_blank(lines[i]));
            assert(blank_until(lines, next, e));
        }
    } else {
        assert(nothing_before_fence(lines, i));
        assert(blank_until(lines, i, i));
    }
}

/// Whether line `i` opens a diagram that has nothing in it: only blank lines stand
/// before the line that closes it, or before the end of the page.
pub open spec fn opens_empty_diagram(lines: Seq<Seq<char>>, i: int) -> bool {
    &&& trimmed(lines[i]) == "```mermaid"@
    &&& exists|e: int| #[trigger] blank_until(lines, add_one(i), e)
}

/// The number that follows.
pub open spec fn add_one(i: int) -> int {
    i + 1
}

/// Whether the line holds a link without a destination.
pub open spec fn links_nowhere(line: Seq<char>) -> bool {
    exists|at: int|
        0 <= at < line.len() - 2 && #[trigger] line[at] == ']' && line[at + 1] == '(' && line[at
            + 2] == ')'
}

proof fn empty_links_link_nowhere(line: Seq<char>)
    ensures
        has_empty_link(line) <==> links_nowhere(line),
{
    reveal_strlit("]()");
    let wanted = "]()"@;
    first_place_is_first(line, wanted, 0);
    if let Some(at) = first_place(line, wanted, 0) {
        let found = line.subrange(at, at + 3);
        assert(found[0] == line[at] && found[1] == line[at + 1] && found[2] == line[at + 2]);
    }
    if links_nowhere(line) {
        let at = choose|at: int|
            0 <= at < line.len() - 2 && #[trigger] line[at] == ']' && line[at + 1] == '(' && line[at
                + 2] == ')';
        assert(line.subrange(at, at + 3) =~= wanted);
        assert(stands_at(line, wanted, at));
    }
}

/// A line outside of code is remarked on where it opens an empty diagram or holds a
/// link without a destination, with its number; no other line is.
pub proof fn lines_are_remarked_on_where_something_is_amiss(lines: Seq<Seq<char>>, n: int)
    requires
        0 <= n < lines.len(),
    ensures
        line_remarks(lines, 0).len() == 0,
        line_remarks(lines, n + 1) == line_remarks(lines, n) + (if in_code(lines, n) {
            Seq::<Seq<char>>::empty()
        } else if opens_empty_diagram(lines, n) {
            seq!["empty mermaid block on line "@ + decimal((n + 1) as nat)]
        } else if links_nowhere(lines[n]) {
            seq!["link without a destination on line "@ + decimal((n + 1) as nat)]
        } else {
            Seq::<Seq<char>>::empty()
        }),
{
    fence_ends_it(lines, add_one(n));
    empty_links_link_nowhere(lines[n]);
    let before = line_remarks(lines, n);
    assert(before + Seq::<Seq<char>>::empty() =~= before);
    match line_remark(lines, n) {
        Some(remark) => {
            assert(before + seq![remark] =~= before.push(remark));
        },
        None => {},
    }
}

/// A heading is remarked on where it is more than one level below the heading
/// before it, and only there.
pub proof fn headings_are_remarked_on_where_they_skip(
    lines: Seq<Seq<char>>,
    places: Seq<int>,
    n: int,
)
    requires
        1 <= n < places.len(),
    ensures
        jump_remarks(lines, places, 1).len() == 0,
        jump_remarks(lines, places, n + 1) == jump_remarks(lines, places, n) + (if hashes(
            line_text(lines[places[n]]),
        ) > hashes(line_text(lines[places[n - 1]])) + 1 {
            seq![
                "heading level jumps from "@ + decimal(hashes(line_text(lines[places[n - 1]])))
                    + " to "@ + (decimal(hashes(line_text(lines[places[n]]))) + " on line "@
                    + decimal((places[n] + 1) as nat)),
            ]
        } else {
            Seq::<Seq<char>>::empty()
        }),
{
    let before = jump_remarks(lines, places, n);
    assert(before + Seq::<Seq<char>>::empty() =~= before);
    let remark = jump_remark(
        hashes(line_text(lines[places[n - 1]])),
        hashes(line_text(lines[places[n]])),
        (places[n] + 1) as nat,
    );
    assert(before + seq![remark] =~= before.push(remark));
}

/// A page is remarked on line by line first, and then heading by heading.
pub proof fn pages_are_remarked_on_in_full(page: Seq<char>)
    ensures
        ({
            let lines = inclusive_lines(page);
            let places = heading_lines(lines, lines.len() as int);
            let of_lines = line_remarks(lines, lines.len() as int);
            let of_headings = jump_remarks(lines, places, places.len() as int);
            &&& lint_remarks(page).len() == of_lines.len() + of_headings.len()
            &&& forall|i: int|
                0 <= i < of_lines.len() ==> #[trigger] lint_remarks(page)[i] == of_lines[i]
            &&& forall|i: int|
                of_lines.len() <= i < lint_remarks(page).len() ==> #[trigger] lint_remarks(page)[i]
                    == of_headings[i - of_lines.len()]
        }),
{
}

} // verus!
