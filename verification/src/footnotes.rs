//! Footnotes of a page: their definitions, and the marks that point to them.
//!
//! A definition is a line that starts with `[^label]:`; the indented lines right
//! behind it belong to it.  A mark is `[^label]` anywhere else.

use vstd::prelude::*;
use vstd::string::StringExecFns;

use crate::mcp::FootnoteMode;
use crate::text::{
    are_lines, chars_of, find_text, first_place, first_place_is_first, flat, flat_lines_split_again,
    has_prefix, inclusive_lines, inclusive_lines_of_concat, inclusive_lines_shape, is_blank,
    is_line, is_space, one_line_is_its_own_lines, only_place_is_first, only_the_ends_are_trimmed,
    opt_view, owned, same, split_lines, stands_at, starts_with, text_between, trim_text, trimmed,
    views,
};

verus! {

/// How long the label is that starts behind the first two characters; none where
/// no label starts there.
pub open spec fn label_length(s: Seq<char>) -> Option<int> {
    if has_prefix(s, "[^"@) {
        match first_place(s.skip(2), "]"@, 0) {
            Some(n) => if n > 0 {
                Some(n)
            } else {
                None
            },
            None => None,
        }
    } else {
        None
    }
}

/// Whether the line is the definition of a footnote.
pub open spec fn is_definition(line: Seq<char>) -> bool {
    label_length(line) matches Some(n) && n + 3 < line.len() && line[n + 3] == ':'
}

/// The label of the footnote that the line defines.
pub open spec fn defined_label(line: Seq<char>) -> Seq<char> {
    line.skip(2).take(label_length(line)->0)
}

/// What the footnote says that the line defines.
pub open spec fn defined_target(line: Seq<char>) -> Seq<char> {
    trimmed(line.skip(label_length(line)->0 + 4))
}

/// What the first definition of the footnote among the lines says.
pub open spec fn target_in(lines: Seq<Seq<char>>, label: Seq<char>) -> Option<Seq<char>>
    decreases lines.len(),
{
    if lines.len() == 0 {
        None
    } else if is_definition(lines[0]) && defined_label(lines[0]) == label {
        Some(defined_target(lines[0]))
    } else {
        target_in(lines.skip(1), label)
    }
}

fn find_label(letters: &Vec<char>, line: &str) -> (out: Option<usize>)
    requires
        letters@ == line@,
    ensures
        match label_length(line@) {
            Some(n) => out matches Some(k) && k == n && n + 3 <= line@.len(),
            None => out is None,
        },
{
    proof {
        reveal_strlit("[^");
        reveal_strlit("]");
    }
    if !starts_with(line, "[^") {
        return None;
    }
    let rest = text_between(letters, 2, letters.len());
    proof {
        assert(rest@ =~= line@.skip(2));
    }
    let body = chars_of(rest.as_str());
    let close = chars_of("]");
    match find_text(&body, &close) {
        Some(n) => if n > 0 {
            Some(n)
        } else {
            None
        },
        None => None,
    }
}

fn definition(line: &str) -> (out: bool)
    ensures
        out == is_definition(line@),
{
    let letters = chars_of(line);
    let total: usize = letters.len();
    match find_label(&letters, line) {
        Some(n) => total - n > 3 && letters[n + 3] == ':',
        None => false,
    }
}

/// What a footnote of a page says; none where the page does not define it.
pub fn get_footnote_target(page: &str, label: &str) -> (out: Option<String>)
    ensures
        opt_view(out) == target_in(inclusive_lines(page@), label@),
{
    let lines = split_lines(page);
    let ghost all = views(lines@);
    proof {
        assert(all.skip(0) =~= all);
    }
    for i in 0..lines.len()
        invariant
            all == views(lines@),
            all == inclusive_lines(page@),
            target_in(all, label@) == target_in(all.skip(i as int), label@),
    {
        let line = lines[i].as_str();
        proof {
            assert(all.skip(i as int)[0] == line@);
            assert(all.skip(i as int).skip(1) =~= all.skip(i + 1));
        }
        if definition(line) {
            let letters = chars_of(line);
            let total: usize = letters.len();
            match find_label(&letters, line) {
                Some(n) => {
                    let named = text_between(&letters, 2, n + 2);
                    proof {
                        assert(named@ =~= line@.skip(2).take(n as int));
                    }
                    if same(named.as_str(), label) {
                        let rest = text_between(&letters, n + 4, total);
                        proof {
                            assert(rest@ =~= line@.skip(n + 4));
                        }
                        return Some(trim_text(rest.as_str()));
                    }
                },
                None => {},
            }
        }
    }
    None
}

/// The text without its marks.
pub open spec fn unmarked(s: Seq<char>) -> Seq<char>
    decreases s.len(),
{
    if s.len() == 0 {
        s
    } else {
        match label_length(s) {
            Some(n) => if n + 3 <= s.len() {
                unmarked(s.skip(n + 3))
            } else {
                s
            },
            None => seq![s[0]] + unmarked(s.skip(1)),
        }
    }
}

/// Whether the line starts with white space that goes on a definition.
pub open spec fn is_indented(line: Seq<char>) -> bool {
    has_prefix(line, " "@) || has_prefix(line, "\t"@)
}

/// Whether line `i` is part of a definition.
pub open spec fn in_definition(lines: Seq<Seq<char>>, i: int) -> bool
    decreases i + 1,
{
    if i < 0 || i >= lines.len() {
        false
    } else {
        is_definition(lines[i]) || (is_indented(lines[i]) && in_definition(lines, i - 1))
    }
}

/// The first `n` lines without definitions and marks.
pub open spec fn excluded(lines: Seq<Seq<char>>, n: int) -> Seq<char>
    decreases n,
{
    if n <= 0 {
        Seq::empty()
    } else if in_definition(lines, n - 1) {
        excluded(lines, n - 1)
    } else {
        excluded(lines, n - 1) + unmarked(lines[n - 1])
    }
}

/// The definitions among the lines.
pub open spec fn definitions(lines: Seq<Seq<char>>) -> Seq<Seq<char>>
    decreases lines.len(),
{
    if lines.len() == 0 {
        Seq::empty()
    } else if is_definition(lines.last()) {
        definitions(lines.drop_last()).push(lines.last())
    } else {
        definitions(lines.drop_last())
    }
}

/// The page as the mode shows it.
pub open spec fn with_mode(page: Seq<char>, mode: FootnoteMode) -> Seq<char> {
    let lines = inclusive_lines(page);
    match mode {
        FootnoteMode::Include => page,
        FootnoteMode::Exclude => excluded(lines, lines.len() as int),
        FootnoteMode::Only => flat(definitions(lines)),
    }
}

fn without_marks(line: &str) -> (out: String)
    ensures
        out@ == unmarked(line@),
{
    let letters = chars_of(line);
    let total: usize = letters.len();
    let mut out = String::new();
    let mut i: usize = 0;
    proof {
        assert(line@.skip(0) =~= line@);
        assert(out@ + unmarked(line@.skip(0)) =~= unmarked(line@));
    }
    while i < total
        invariant
            letters@ == line@,
            total == letters.len(),
            i <= total,
            unmarked(line@) == out@ + unmarked(line@.skip(i as int)),
        decreases total - i,
    {
        let ghost before = out@;
        let rest = text_between(&letters, i, total);
        proof {
            assert(rest@ =~= line@.skip(i as int));
        }
        let behind = chars_of(rest.as_str());
        match find_label(&behind, rest.as_str()) {
            Some(n) => {
                proof {
                    assert(rest@.skip(n + 3) =~= line@.skip(i + n + 3));
                }
                i = i + n + 3;
            },
            None => {
                out.push(letters[i]);
                proof {
                    assert(rest@.skip(1) =~= line@.skip(i + 1));
                    assert(before + (seq![rest@[0]] + unmarked(rest@.skip(1))) =~= out@ + unmarked(
                        line@.skip(i + 1),
                    ));
                }
                i = i + 1;
            },
        }
    }
    proof {
        assert(line@.skip(total as int) =~= Seq::<char>::empty());
        assert(out@ + unmarked(line@.skip(total as int)) =~= out@);
    }
    out
}

/// The page as the mode shows it: as it is, without definitions and marks, or
/// with nothing but the lines of definitions.
pub fn apply_footnote_mode(page: &str, mode: FootnoteMode) -> (out: String)
    ensures
        out@ == with_mode(page@, mode),
{
    match mode {
        FootnoteMode::Include => {
            return owned(page);
        },
        _ => {},
    }
    let only = match mode {
        FootnoteMode::Only => true,
        _ => false,
    };
    let lines = split_lines(page);
    let ghost all = views(lines@);
    let mut out = String::new();
    let mut within = false;
    proof {
        assert(all.take(0) =~= Seq::<Seq<char>>::empty());
        assert(flat(definitions(all.take(0))) =~= Seq::<char>::empty());
    }
    for i in 0..lines.len()
        invariant
            all == views(lines@),
            all == inclusive_lines(page@),
            within == in_definition(all, i - 1),
            only ==> out@ == flat(definitions(all.take(i as int))),
            !only ==> out@ == excluded(all, i as int),
    {
        let line = lines[i].as_str();
        let defines = definition(line);
        let indented = starts_with(line, " ") || starts_with(line, "\t");
        proof {
            let next = all.take(i + 1);
            assert(next.drop_last() =~= all.take(i as int));
            assert(next.last() == line@);
            let before = definitions(all.take(i as int));
            assert(before.push(line@).drop_last() =~= before);
        }
        within = defines || (indented && within);
        if only {
            if defines {
                out.append(line);
            }
        } else if !within {
            let text = without_marks(line);
            out.append(text.as_str());
        }
    }
    proof {
        assert(all.take(all.len() as int) =~= all);
    }
    out
}

proof fn definitions_are_lines(lines: Seq<Seq<char>>)
    requires
        are_lines(lines),
    ensures
        are_lines(definitions(lines)),
        definitions(lines).len() > 0 && definitions(lines).last().last() != '\n' ==> lines.last()
            == definitions(lines).last(),
        forall|i: int|
            0 <= i < definitions(lines).len() ==> is_definition(#[trigger] definitions(lines)[i]),
    decreases lines.len(),
{
    if lines.len() > 0 {
        let front = lines.drop_last();
        assert(are_lines(front)) by {
            assert forall|i: int| 0 <= i < front.len() implies is_line(#[trigger] front[i]) by {
                assert(is_line(lines[i]));
            }
            assert forall|i: int| 0 <= i < front.len() - 1 implies (#[trigger] front[i]).last()
                == '\n' by {
                assert(lines[i].last() == '\n');
            }
        }
        definitions_are_lines(front);
        let before = definitions(front);
        let now = definitions(lines);
        if front.len() > 0 {
            assert(lines[front.len() - 1].last() == '\n');
            assert(front.last() == lines[front.len() - 1]);
        }
        if is_definition(lines.last()) {
            assert(is_line(lines[lines.len() - 1]));
            assert forall|i: int| 0 <= i < now.len() implies is_line(#[trigger] now[i])
                && is_definition(now[i]) by {
                if i < before.len() {
                    assert(now[i] == before[i]);
                    assert(is_definition(before[i]));
                }
            }
            assert forall|i: int| 0 <= i < now.len() - 1 implies (#[trigger] now[i]).last()
                == '\n' by {
                assert(now[i] == before[i]);
                if i == before.len() - 1 {
                    assert(before.last() == before[i]);
                }
            }
        }
    }
}

proof fn definitions_of_definitions(lines: Seq<Seq<char>>)
    requires
        forall|i: int| 0 <= i < lines.len() ==> is_definition(#[trigger] lines[i]),
    ensures
        definitions(lines) == lines,
    decreases lines.len(),
{
    if lines.len() > 0 {
        let front = lines.drop_last();
        assert forall|i: int| 0 <= i < front.len() implies is_definition(#[trigger] front[i]) by {
            assert(is_definition(lines[i]));
        }
        definitions_of_definitions(front);
        assert(is_definition(lines[lines.len() - 1]));
        assert(front.push(lines.last()) =~= lines);
    } else {
        assert(definitions(lines) =~= lines);
    }
}

/// What shows only the definitions shows each of them as a line of its own, and
/// nothing else: showing only the definitions of that changes nothing.
pub proof fn only_definitions_are_left(page: Seq<char>)
    ensures
        ({
            let left = with_mode(page, FootnoteMode::Only);
            &&& inclusive_lines(left) == definitions(inclusive_lines(page))
            &&& with_mode(left, FootnoteMode::Only) == left
        }),
{
    let lines = inclusive_lines(page);
    inclusive_lines_shape(page);
    definitions_are_lines(lines);
    flat_lines_split_again(definitions(lines));
    definitions_of_definitions(definitions(lines));
}

/// A page without definitions and without the first character of a mark is shown
/// in full where footnotes are left out.
pub proof fn plain_pages_are_shown_in_full(page: Seq<char>)
    requires
        !page.contains('['),
    ensures
        with_mode(page, FootnoteMode::Exclude) == page,
{
    let lines = inclusive_lines(page);
    inclusive_lines_shape(page);
    plain_lines_stay(lines, lines.len() as int);
    assert(lines.take(lines.len() as int) =~= lines);
}

proof fn plain_lines_stay(lines: Seq<Seq<char>>, n: int)
    requires
        !flat(lines).contains('['),
        0 <= n <= lines.len(),
    ensures
        excluded(lines, n) == flat(lines.take(n)),
    decreases n,
{
    if n > 0 {
        plain_lines_stay(lines, n - 1);
        assert(lines.take(n).drop_last() =~= lines.take(n - 1));
        assert forall|i: int| 0 <= i < lines.len() implies !(#[trigger] lines[i]).contains('[') by {
            part_is_in_flat(lines, i);
        }
        assert forall|i: int| 0 <= i < lines.len() implies !is_definition(#[trigger] lines[i]) by {
            no_mark_starts(lines[i]);
        }
        no_definitions(lines, n - 1);
        plain_text_is_unmarked(lines[n - 1]);
    } else {
        assert(lines.take(0) =~= Seq::<Seq<char>>::empty());
    }
}

proof fn no_mark_starts(s: Seq<char>)
    requires
        !s.contains('['),
    ensures
        label_length(s) is None,
{
    reveal_strlit("[^");
    if has_prefix(s, "[^"@) {
        assert(s.take(2)[0] == s[0]);
        assert(s[0] == '[');
    }
}

proof fn no_definitions(lines: Seq<Seq<char>>, i: int)
    requires
        forall|j: int| 0 <= j < lines.len() ==> !is_definition(#[trigger] lines[j]),
    ensures
        !in_definition(lines, i),
    decreases i + 1,
{
    if 0 <= i < lines.len() {
        no_definitions(lines, i - 1);
    }
}

proof fn plain_text_is_unmarked(s: Seq<char>)
    requires
        !s.contains('['),
    ensures
        unmarked(s) == s,
    decreases s.len(),
{
    if s.len() > 0 {
        no_mark_starts(s);
        let rest = s.skip(1);
        assert(!rest.contains('[')) by {
            if rest.contains('[') {
                let k = choose|k: int| 0 <= k < rest.len() && rest[k] == '[';
                assert(s[k + 1] == '[');
            }
        }
        plain_text_is_unmarked(rest);
        assert(seq![s[0]] + rest =~= s);
    }
}

proof fn part_is_in_flat(parts: Seq<Seq<char>>, i: int)
    requires
        0 <= i < parts.len(),
        !flat(parts).contains('['),
    ensures
        !parts[i].contains('['),
    decreases parts.len(),
{
    let front = parts.drop_last();
    if i == parts.len() - 1 {
        if parts[i].contains('[') {
            let k = choose|k: int| 0 <= k < parts[i].len() && parts[i][k] == '[';
            assert(flat(parts)[flat(front).len() + k] == '[');
        }
    } else {
        assert(!flat(front).contains('[')) by {
            if flat(front).contains('[') {
                let k = choose|k: int| 0 <= k < flat(front).len() && flat(front)[k] == '[';
                assert(flat(parts)[k] == '[');
            }
        }
        part_is_in_flat(front, i);
        assert(front[i] == parts[i]);
    }
}

/// Whether the text begins with a mark: with `[^`, a label that is not empty and
/// holds no `]`, and `]`.
pub open spec fn starts_with_mark(s: Seq<char>, label: Seq<char>) -> bool {
    &&& label.len() > 0
    &&& !label.contains(']')
    &&& s.len() >= label.len() + 3
    &&& s[0] == '['
    &&& s[1] == '^'
    &&& s.subrange(2, 2 + label.len() as int) == label
    &&& s[2 + label.len() as int] == ']'
}

/// A label is found exactly where the text begins with a mark.
proof fn labels_are_of_marks(s: Seq<char>)
    ensures
        match label_length(s) {
            Some(n) => n + 3 <= s.len() && n > 0 && starts_with_mark(s, s.subrange(2, 2 + n)),
            None => forall|label: Seq<char>| !#[trigger] starts_with_mark(s, label),
        },
        forall|label: Seq<char>| #[trigger]
            starts_with_mark(s, label) ==> label_length(s) == Some(label.len() as int),
{
    reveal_strlit("[^");
    reveal_strlit("]");
    let close = "]"@;
    if has_prefix(s, "[^"@) {
        assert(s.take(2)[0] == '[' && s.take(2)[1] == '^');
        let rest = s.skip(2);
        first_place_is_first(rest, close, 0);
        if let Some(n) = first_place(rest, close, 0) {
            assert(rest.subrange(n, n + 1)[0] == ']');
            let label = s.subrange(2, 2 + n);
            if label.contains(']') {
                let k = choose|k: int| 0 <= k < label.len() && label[k] == ']';
                assert(rest.subrange(k, k + 1) =~= close);
                assert(stands_at(rest, close, k));
            }
        }
    }
    assert forall|label: Seq<char>| #[trigger] starts_with_mark(s, label) implies label_length(s)
        == Some(label.len() as int) by {
        assert(s.take(2) =~= "[^"@);
        let rest = s.skip(2);
        let n = label.len() as int;
        assert(rest.subrange(n, n + 1) =~= close);
        assert forall|i: int| 0 <= i < n implies !#[trigger] stands_at(rest, close, i) by {
            if stands_at(rest, close, i) {
                assert(rest.subrange(i, i + 1)[0] == ']');
                assert(s.subrange(2, 2 + n)[i] == ']');
                assert(label.contains(label[i]));
            }
        }
        only_place_is_first(rest, close, 0, n);
    }
}

/// A line defines a footnote exactly where it begins with the mark of the
/// footnote and a colon; what it says of it is all that stands behind the colon,
/// but for white space at the ends.
pub proof fn definitions_are_marks_with_a_colon(line: Seq<char>)
    ensures
        is_definition(line) <==> exists|label: Seq<char>| #[trigger]
            starts_with_mark(line, label) && line.len() > label.len() + 3 && line[label.len() as int
                + 3] == ':',
        forall|label: Seq<char>| #[trigger]
            starts_with_mark(line, label) && is_definition(line) ==> defined_label(line) == label
                && defined_target(line) == trimmed(line.skip(label.len() as int + 4)),
{
    labels_are_of_marks(line);
    if is_definition(line) {
        let n = label_length(line)->0;
        assert(starts_with_mark(line, line.subrange(2, 2 + n)));
    }
    assert forall|label: Seq<char>| #[trigger]
        starts_with_mark(line, label) && is_definition(line) implies defined_label(line) == label
        by {
        assert(line.skip(2).take(label.len() as int) =~= line.subrange(2, 2 + label.len() as int));
    }
}

/// Whether the line defines the footnote of the label.
pub open spec fn defines(line: Seq<char>, label: Seq<char>) -> bool {
    &&& starts_with_mark(line, label)
    &&& line.len() > label.len() + 3
    &&& line[label.len() as int + 3] == ':'
}

proof fn definitions_define(line: Seq<char>, label: Seq<char>)
    ensures
        defines(line, label) <==> is_definition(line) && defined_label(line) == label,
{
    definitions_are_marks_with_a_colon(line);
    labels_are_of_marks(line);
    if is_definition(line) && defined_label(line) == label {
        let n = label_length(line)->0;
        assert(line.skip(2).take(n) =~= line.subrange(2, 2 + n));
    }
}

/// Looking up a footnote gives what the first line says that defines it, all of
/// it; nothing is found exactly where no line defines it.
pub proof fn footnotes_say_what_their_line_says(lines: Seq<Seq<char>>, label: Seq<char>)
    ensures
        target_in(lines, label) is None <==> forall|i: int|
            0 <= i < lines.len() ==> !defines(#[trigger] lines[i], label),
        forall|i: int|
            0 <= i < lines.len() && defines(#[trigger] lines[i], label) && (forall|j: int|
                0 <= j < i ==> !defines(#[trigger] lines[j], label)) ==> target_in(lines, label)
                == Some(trimmed(lines[i].skip(label.len() as int + 4))),
    decreases lines.len(),
{
    if lines.len() > 0 {
        let rest = lines.skip(1);
        footnotes_say_what_their_line_says(rest, label);
        definitions_define(lines[0], label);
        definitions_are_marks_with_a_colon(lines[0]);
        if defines(lines[0], label) {
            assert(target_in(lines, label) == Some(
                trimmed(lines[0].skip(label.len() as int + 4)),
            ));
            assert forall|i: int|
                0 <= i < lines.len() && defines(#[trigger] lines[i], label) && (forall|j: int|
                    0 <= j < i ==> !defines(#[trigger] lines[j], label)) implies target_in(
                lines,
                label,
            ) == Some(trimmed(lines[i].skip(label.len() as int + 4))) by {
                if i > 0 {
                    assert(!defines(lines[0], label));
                }
            }
        } else {
            assert(target_in(lines, label) == target_in(rest, label));
            if forall|i: int| 0 <= i < lines.len() ==> !defines(#[trigger] lines[i], label) {
                assert forall|i: int| 0 <= i < rest.len() implies !defines(#[trigger] rest[i], label)
                    by {
                    assert(!defines(lines[i + 1], label));
                }
            }
            assert forall|i: int| 0 <= i < lines.len() && target_in(lines, label) is None implies
                !defines(#[trigger] lines[i], label) by {
                if i > 0 {
                    assert(!defines(rest[i - 1], label));
                }
            }
            assert forall|i: int|
                0 <= i < lines.len() && defines(#[trigger] lines[i], label) && (forall|j: int|
                    0 <= j < i ==> !defines(#[trigger] lines[j], label)) implies target_in(
                lines,
                label,
            ) == Some(trimmed(lines[i].skip(label.len() as int + 4))) by {
                assert(i > 0);
                assert(rest[i - 1] == lines[i]);
                assert forall|j: int| 0 <= j < i - 1 implies !defines(#[trigger] rest[j], label) by {
                    assert(!defines(lines[j + 1], label));
                }
            }
        }
    }
}

/// A footnote that a page defines is found again, word for word: the line
/// `[^label]: text` behind lines that do not define it gives the text, all of it.
pub proof fn footnotes_read_back(
    before: Seq<char>,
    label: Seq<char>,
    t: Seq<char>,
    after: Seq<char>,
)
    requires
        before.len() == 0 || before.last() == '\n',
        forall|i: int|
            0 <= i < inclusive_lines(before).len() ==> !defines(
                #[trigger] inclusive_lines(before)[i],
                label,
            ),
        label.len() > 0,
        !label.contains(']'),
        !label.contains('\n'),
        !t.contains('\n'),
        t.len() > 0 ==> !is_space(t[0]) && !is_space(t.last()),
    ensures
        target_in(
            inclusive_lines(before + (seq!['[', '^'] + label + seq![']', ':', ' '] + t + seq!['\n'])
                + after),
            label,
        ) == Some(t),
{
    let front = seq!['[', '^'] + label + seq![']', ':'];
    let line = seq!['[', '^'] + label + seq![']', ':', ' '] + t + seq!['\n'];
    let head = inclusive_lines(before);
    let lines = inclusive_lines(before + line + after);
    let m = label.len() as int;
    assert(is_line(line)) by {
        assert forall|i: int| 0 <= i < line.len() - 1 implies #[trigger] line[i] != '\n' by {
            if 2 <= i < 2 + m {
                assert(line[i] == label[i - 2]);
                assert(label.contains(label[i - 2]));
            } else if i >= 5 + m {
                assert(line[i] == t[i - 5 - m]);
                assert(t.contains(t[i - 5 - m]));
            }
        }
    }
    inclusive_lines_of_concat(before, line + after);
    inclusive_lines_of_concat(line, after);
    one_line_is_its_own_lines(line);
    assert(before + line + after =~= before + (line + after));
    assert(lines =~= head + (seq![line] + inclusive_lines(after)));
    assert(line.subrange(2, 2 + m) =~= label);
    assert(defines(line, label));
    let d = head.len() as int;
    assert(lines[d] == line);
    assert forall|j: int| 0 <= j < d implies !defines(#[trigger] lines[j], label) by {
        assert(lines[j] == head[j]);
    }
    footnotes_say_what_their_line_says(lines, label);
    let left = seq![' '];
    let right = seq!['\n'];
    assert(line.skip(m + 4) =~= left + t + right);
    assert(is_blank(left) && is_blank(right));
    only_the_ends_are_trimmed(left, t, right);
}

/// Whether line `d` is a definition and each line behind it up to `i` is indented.
pub open spec fn goes_with(lines: Seq<Seq<char>>, d: int, i: int) -> bool {
    &&& 0 <= d <= i
    &&& is_definition(lines[d])
    &&& forall|k: int|
        d < k <= i ==> (#[trigger] lines[k]).len() > 0 && (lines[k][0] == ' ' || lines[k][0]
            == '\t')
}

/// Whether line `i` is a definition, or is indented and so is each line between it
/// and a definition before it.
pub open spec fn goes_with_a_definition(lines: Seq<Seq<char>>, i: int) -> bool {
    exists|d: int| goes_with(lines, d, i)
}

proof fn indented_lines_start_blank(line: Seq<char>)
    ensures
        is_indented(line) <==> line.len() > 0 && (line[0] == ' ' || line[0] == '\t'),
{
    reveal_strlit(" ");
    reveal_strlit("\t");
    if line.len() > 0 {
        assert(line.take(1) =~= seq![line[0]]);
        assert(" "@ =~= seq![' ']);
        assert("\t"@ =~= seq!['\t']);
        assert(seq![line[0]][0] == line[0]);
        assert(seq![' '][0] == ' ');
        assert(seq!['\t'][0] == '\t');
    }
}

/// The lines that are left out with the footnotes are the definitions, and the
/// indented lines that go with one.
pub proof fn only_definitions_are_left_out(lines: Seq<Seq<char>>, i: int)
    requires
        0 <= i < lines.len(),
    ensures
        in_definition(lines, i) <==> goes_with_a_definition(lines, i),
    decreases i,
{
    indented_lines_start_blank(lines[i]);
    assert(!in_definition(lines, -1));
    if i > 0 {
        only_definitions_are_left_out(lines, i - 1);
    }
    if is_definition(lines[i]) {
        assert(goes_with(lines, i, i));
    } else {
        if in_definition(lines, i) {
            assert(in_definition(lines, i - 1));
            let above = i - 1;
            let d = choose|d: int| goes_with(lines, d, above);
            assert(goes_with(lines, d, i));
        }
        if goes_with_a_definition(lines, i) {
            let d = choose|d: int| goes_with(lines, d, i);
            assert(d < i);
            assert(lines[i].len() > 0);
            assert(goes_with(lines, d, i - 1));
        }
    }
}

/// The first `n` lines but for those that go with a definition, in their order.
pub open spec fn lines_left(lines: Seq<Seq<char>>, n: int) -> Seq<Seq<char>>
    decreases n,
{
    if n <= 0 {
        Seq::empty()
    } else if goes_with_a_definition(lines, n - 1) {
        lines_left(lines, n - 1)
    } else {
        lines_left(lines, n - 1).push(lines[n - 1])
    }
}

/// The texts without their marks.
pub open spec fn all_unmarked(lines: Seq<Seq<char>>) -> Seq<Seq<char>> {
    Seq::new(lines.len(), |i: int| unmarked(lines[i]))
}

proof fn excluded_is_what_is_left(lines: Seq<Seq<char>>, n: int)
    requires
        0 <= n <= lines.len(),
    ensures
        excluded(lines, n) == flat(all_unmarked(lines_left(lines, n))),
    decreases n,
{
    if n > 0 {
        excluded_is_what_is_left(lines, n - 1);
        only_definitions_are_left_out(lines, n - 1);
        let before = lines_left(lines, n - 1);
        if !goes_with_a_definition(lines, n - 1) {
            let now = all_unmarked(lines_left(lines, n));
            assert(now.drop_last() =~= all_unmarked(before));
            assert(now.last() == unmarked(lines[n - 1]));
        }
    } else {
        assert(all_unmarked(lines_left(lines, n)) =~= Seq::<Seq<char>>::empty());
    }
}

/// Without footnotes a page shows exactly those of its lines that do not go with a
/// definition, in their order, each without its marks.  As it is, it shows all;
/// and with nothing but definitions, those of its lines that are definitions.
pub proof fn modes_show_what_they_should(page: Seq<char>)
    ensures
        with_mode(page, FootnoteMode::Include) == page,
        with_mode(page, FootnoteMode::Exclude) == flat(
            all_unmarked(
                lines_left(inclusive_lines(page), inclusive_lines(page).len() as int),
            ),
        ),
        with_mode(page, FootnoteMode::Only) == flat(
            inclusive_lines(page).filter(|line: Seq<char>| is_definition(line)),
        ),
{
    let lines = inclusive_lines(page);
    excluded_is_what_is_left(lines, lines.len() as int);
    definitions_are_filtered(lines);
}

proof fn definitions_are_filtered(lines: Seq<Seq<char>>)
    ensures
        definitions(lines) == lines.filter(|line: Seq<char>| is_definition(line)),
    decreases lines.len(),
{
    reveal(Seq::filter);
    if lines.len() > 0 {
        definitions_are_filtered(lines.drop_last());
    }
}

/// What is no bracket stays when marks are left out.
pub proof fn text_before_a_bracket_stays(a: Seq<char>, s: Seq<char>)
    requires
        !a.contains('['),
    ensures
        unmarked(a + s) == a + unmarked(s),
    decreases a.len(),
{
    if a.len() == 0 {
        assert(a + s =~= s);
        assert(a + unmarked(s) =~= unmarked(s));
    } else {
        let whole = a + s;
        let rest = a.skip(1);
        assert(a.contains(a[0]));
        labels_are_of_marks(whole);
        assert(whole.skip(1) =~= rest + s);
        assert(!rest.contains('[')) by {
            if rest.contains('[') {
                let k = choose|k: int| 0 <= k < rest.len() && rest[k] == '[';
                assert(a[k + 1] == '[');
            }
        }
        text_before_a_bracket_stays(rest, s);
        assert(seq![whole[0]] + (rest + unmarked(s)) =~= a + unmarked(s));
    }
}

/// Every mark goes, whole, and nothing behind it goes with it.
pub proof fn marks_go(s: Seq<char>, label: Seq<char>)
    requires
        starts_with_mark(s, label),
    ensures
        unmarked(s) == unmarked(s.skip(label.len() as int + 3)),
{
    labels_are_of_marks(s);
}

/// A bracket that begins no mark stays.
pub proof fn other_brackets_stay(s: Seq<char>)
    requires
        s.len() > 0,
        forall|label: Seq<char>| !#[trigger] starts_with_mark(s, label),
    ensures
        unmarked(s) == seq![s[0]] + unmarked(s.skip(1)),
{
    labels_are_of_marks(s);
    if label_length(s) is Some {
        assert(starts_with_mark(s, s.subrange(2, 2 + label_length(s)->0)));
    }
}

} // verus!
