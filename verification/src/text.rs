//! Text primitives: the models of text that the rest of the library speaks of,
//! and the executable functions that compute them.
//!
//! A text is modelled by the sequence of its characters.

use vstd::prelude::*;
use vstd::string::StringExecFns;

verus! {

/// The `push` method of std's `String`: appends one character to the text.
pub assume_specification[ String::push ](s: &mut String, c: char)
    ensures
        final(s)@ == old(s)@.push(c),
;

/// The models of a list of texts.
pub open spec fn views(list: Seq<String>) -> Seq<Seq<char>> {
    Seq::new(list.len(), |i: int| list[i]@)
}

/// The model of an optional text.
pub open spec fn opt_view(text: Option<String>) -> Option<Seq<char>> {
    match text {
        Some(t) => Some(t@),
        None => None,
    }
}

/// The model of an optional borrowed text.
pub open spec fn opt_str_view(text: Option<&str>) -> Option<Seq<char>> {
    match text {
        Some(t) => Some(t@),
        None => None,
    }
}

/// Whether `s` begins with `prefix`.
pub open spec fn has_prefix(s: Seq<char>, prefix: Seq<char>) -> bool {
    &&& prefix.len() <= s.len()
    &&& s.take(prefix.len() as int) == prefix
}

/// Whether `s` ends with `suffix`.
pub open spec fn has_suffix(s: Seq<char>, suffix: Seq<char>) -> bool {
    &&& suffix.len() <= s.len()
    &&& s.skip(s.len() - suffix.len()) == suffix
}

/// The pieces of `s` between the occurrences of `sep`.  There is always one
/// more piece than there are separators.
pub open spec fn split(s: Seq<char>, sep: char) -> Seq<Seq<char>>
    decreases s.len(),
{
    if s.len() == 0 {
        seq![Seq::<char>::empty()]
    } else {
        let before = split(s.drop_last(), sep);
        if s.last() == sep {
            before.push(Seq::<char>::empty())
        } else {
            before.drop_last().push(before.last().push(s.last()))
        }
    }
}

/// The lines of `s`, each with the line feed that ends it.  Only the last line
/// may lack one, and no line is empty.
pub open spec fn inclusive_lines(s: Seq<char>) -> Seq<Seq<char>>
    decreases s.len(),
{
    if s.len() == 0 {
        Seq::empty()
    } else {
        let before = inclusive_lines(s.drop_last());
        if before.len() == 0 || before.last().last() == '\n' {
            before.push(seq![s.last()])
        } else {
            before.drop_last().push(before.last().push(s.last()))
        }
    }
}

/// The texts of `parts`, one after the other.
pub open spec fn flat(parts: Seq<Seq<char>>) -> Seq<char>
    decreases parts.len(),
{
    if parts.len() == 0 {
        Seq::empty()
    } else {
        flat(parts.drop_last()) + parts.last()
    }
}

/// A line without the line feeds and carriage returns at its end.
pub open spec fn line_body(line: Seq<char>) -> Seq<char>
    decreases line.len(),
{
    if line.len() > 0 && (line.last() == '\n' || line.last() == '\r') {
        line_body(line.drop_last())
    } else {
        line
    }
}

/// What a line says: without the line feed that ends it, and without a carriage
/// return before that.
pub open spec fn line_text(line: Seq<char>) -> Seq<char> {
    if line.len() > 0 && line.last() == '\n' {
        let body = line.drop_last();
        if body.len() > 0 && body.last() == '\r' {
            body.drop_last()
        } else {
            body
        }
    } else {
        line
    }
}

/// The number, with a minus sign where it is negative.
pub open spec fn signed_decimal(n: int) -> Seq<char> {
    if n < 0 {
        seq!['-'] + decimal((-n) as nat)
    } else {
        decimal(n as nat)
    }
}

/// The text with spaces in front of it, so that it is at least `width` long.
pub open spec fn padded(s: Seq<char>, width: nat) -> Seq<char>
    decreases width - s.len(),
{
    if s.len() >= width {
        s
    } else {
        padded(seq![' '] + s, width)
    }
}

/// The texts of `parts`, with `sep` between each two.
pub open spec fn join_with(parts: Seq<Seq<char>>, sep: Seq<char>) -> Seq<char>
    decreases parts.len(),
{
    if parts.len() == 0 {
        Seq::empty()
    } else if parts.len() == 1 {
        parts[0]
    } else {
        join_with(parts.drop_last(), sep) + sep + parts.last()
    }
}

/// The characters that Unicode calls white space.
pub open spec fn is_space(c: char) -> bool {
    let n = c as u32;
    ||| 9 <= n <= 13
    ||| n == 32
    ||| n == 0x85
    ||| n == 0xA0
    ||| n == 0x1680
    ||| 0x2000 <= n <= 0x200A
    ||| n == 0x2028
    ||| n == 0x2029
    ||| n == 0x202F
    ||| n == 0x205F
    ||| n == 0x3000
}

/// `s` without the white space at its front.
pub open spec fn trim_front(s: Seq<char>) -> Seq<char>
    decreases s.len(),
{
    if s.len() > 0 && is_space(s[0]) {
        trim_front(s.drop_first())
    } else {
        s
    }
}

/// `s` without the white space at its back.
pub open spec fn trim_back(s: Seq<char>) -> Seq<char>
    decreases s.len(),
{
    if s.len() > 0 && is_space(s.last()) {
        trim_back(s.drop_last())
    } else {
        s
    }
}

/// `s` without the white space at either end.
pub open spec fn trimmed(s: Seq<char>) -> Seq<char> {
    trim_back(trim_front(s))
}

/// Whether `s` holds nothing but white space.
pub open spec fn is_blank(s: Seq<char>) -> bool {
    forall|i: int| 0 <= i < s.len() ==> is_space(#[trigger] s[i])
}

/// The character of a decimal digit.
pub open spec fn digit_char(d: nat) -> char {
    if d == 0 {
        '0'
    } else if d == 1 {
        '1'
    } else if d == 2 {
        '2'
    } else if d == 3 {
        '3'
    } else if d == 4 {
        '4'
    } else if d == 5 {
        '5'
    } else if d == 6 {
        '6'
    } else if d == 7 {
        '7'
    } else if d == 8 {
        '8'
    } else {
        '9'
    }
}

/// The decimal digits of `n`, with no leading zero.
pub open spec fn decimal(n: nat) -> Seq<char>
    decreases n,
{
    if n < 10 {
        seq![digit_char(n)]
    } else {
        decimal(n / 10).push(digit_char(n % 10))
    }
}

/// What std's `Debug` formatting of a text is.
pub uninterp spec fn debug_text(s: Seq<char>) -> Seq<char>;

/// `format!("{:?}", ..)` of std on a text: the text in double quotes, with
/// what std escapes in it escaped.  The contract names the result without
/// saying which characters are escaped; it depends on the text alone.
#[verifier::external_body]
pub(crate) fn debug_quote(s: &str) -> (out: String)
    ensures
        out@ == debug_text(s@),
{
    format!("{:?}", s)
}

/// The characters of a text, one by one.
pub fn chars_of(s: &str) -> (out: Vec<char>)
    ensures
        out@ == s@,
{
    let mut out: Vec<char> = Vec::new();
    for c in it: s.chars()
        invariant
            out@ == it.seq().take(it.index()),
            it.seq() == s@,
    {
        out.push(c);
    }
    out
}

/// The text made of the characters of `cs` from `from` up to `to`.
pub fn text_between(cs: &Vec<char>, from: usize, to: usize) -> (out: String)
    requires
        from <= to <= cs.len(),
    ensures
        out@ == cs@.subrange(from as int, to as int),
{
    let mut out = String::new();
    for i in from..to
        invariant
            from <= i <= to <= cs.len(),
            out@ == cs@.subrange(from as int, i as int),
    {
        out.push(cs[i]);
    }
    out
}

/// Whether two texts are the same.
pub fn same(a: &str, b: &str) -> (out: bool)
    ensures
        out == (a@ == b@),
{
    let left: String = a.to_owned();
    let right: String = b.to_owned();
    left == right
}

/// A copy of a borrowed text.
pub fn owned(a: &str) -> (out: String)
    ensures
        out@ == a@,
{
    a.to_owned()
}

/// A copy of an optional borrowed text.
pub fn owned_opt(a: Option<&str>) -> (out: Option<String>)
    ensures
        opt_view(out) == opt_str_view(a),
{
    match a {
        Some(t) => Some(t.to_owned()),
        None => None,
    }
}

/// A copy of a list of texts.
pub fn copy_list(list: &Vec<String>) -> (out: Vec<String>)
    ensures
        out@ == list@,
{
    let mut out: Vec<String> = Vec::new();
    for i in 0..list.len()
        invariant
            out@ == list@.take(i as int),
    {
        out.push(list[i].clone());
    }
    out
}

/// Whether `s` begins with `prefix`.
pub fn starts_with(s: &str, prefix: &str) -> (out: bool)
    ensures
        out == has_prefix(s@, prefix@),
{
    let text = chars_of(s);
    let head = chars_of(prefix);
    if head.len() > text.len() {
        return false;
    }
    for i in 0..head.len()
        invariant
            head@ == prefix@,
            text@ == s@,
            head.len() <= text.len(),
            forall|j: int| 0 <= j < i ==> text@[j] == head@[j],
    {
        if text[i] != head[i] {
            proof {
                assert(s@.take(prefix@.len() as int)[i as int] != prefix@[i as int]);
            }
            return false;
        }
    }
    proof {
        assert(s@.take(prefix@.len() as int) =~= prefix@);
    }
    true
}

/// Whether `s` ends with `suffix`.
pub fn ends_with(s: &str, suffix: &str) -> (out: bool)
    ensures
        out == has_suffix(s@, suffix@),
{
    let text = chars_of(s);
    let tail = chars_of(suffix);
    if tail.len() > text.len() {
        return false;
    }
    let gap: usize = text.len() - tail.len();
    for i in 0..tail.len()
        invariant
            tail@ == suffix@,
            text@ == s@,
            gap + tail.len() == text.len(),
            forall|j: int| 0 <= j < i ==> text@[gap + j] == tail@[j],
    {
        if text[gap + i] != tail[i] {
            proof {
                assert(s@.skip(s@.len() - suffix@.len())[i as int] != suffix@[i as int]);
            }
            return false;
        }
    }
    proof {
        assert(s@.skip(s@.len() - suffix@.len()) =~= suffix@);
    }
    true
}

/// Whether the character occurs in `s`.
pub fn contains_char(s: &str, c: char) -> (out: bool)
    ensures
        out == s@.contains(c),
{
    let text = chars_of(s);
    for i in 0..text.len()
        invariant
            text@ == s@,
            forall|j: int| 0 <= j < i ==> text@[j] != c,
    {
        if text[i] == c {
            return true;
        }
    }
    false
}

/// A line: not empty, and with no line feed but at its end.
pub open spec fn is_line(line: Seq<char>) -> bool {
    &&& line.len() > 0
    &&& forall|i: int| 0 <= i < line.len() - 1 ==> #[trigger] line[i] != '\n'
}

/// Lines of which only the last may lack its line feed.
pub open spec fn are_lines(lines: Seq<Seq<char>>) -> bool {
    &&& forall|i: int| 0 <= i < lines.len() ==> is_line(#[trigger] lines[i])
    &&& forall|i: int| 0 <= i < lines.len() - 1 ==> (#[trigger] lines[i]).last() == '\n'
}

/// The lines of a text are lines, and together they are the text.
pub proof fn inclusive_lines_shape(s: Seq<char>)
    ensures
        are_lines(inclusive_lines(s)),
        flat(inclusive_lines(s)) == s,
        (inclusive_lines(s).len() == 0) == (s.len() == 0),
        s.len() > 0 ==> inclusive_lines(s).last().last() == s.last(),
    decreases s.len(),
{
    if s.len() > 0 {
        let shorter = s.drop_last();
        let before = inclusive_lines(shorter);
        inclusive_lines_shape(shorter);
        assert(shorter.push(s.last()) =~= s);
        if before.len() == 0 || before.last().last() == '\n' {
            let now = before.push(seq![s.last()]);
            assert(now.drop_last() =~= before);
            assert(flat(now) =~= s);
            assert forall|i: int| 0 <= i < now.len() implies is_line(#[trigger] now[i]) by {
                if i < before.len() {
                    assert(is_line(before[i]));
                }
            }
            assert forall|i: int| 0 <= i < now.len() - 1 implies (#[trigger] now[i]).last() == '\n' by {
                assert(now[i] == before[i]);
            }
        } else {
            let grown = before.last().push(s.last());
            let now = before.drop_last().push(grown);
            assert(now.drop_last() =~= before.drop_last());
            assert(flat(now) =~= s);
            assert(is_line(before[before.len() - 1]));
            assert(is_line(grown)) by {
                assert forall|i: int| 0 <= i < grown.len() - 1 implies #[trigger] grown[i] != '\n' by {
                    if i < before.last().len() - 1 {
                        assert(before.last()[i] != '\n');
                    }
                }
            }
            assert forall|i: int| 0 <= i < now.len() implies is_line(#[trigger] now[i]) by {
                if i < before.len() - 1 {
                    assert(is_line(before[i]));
                }
            }
            assert forall|i: int| 0 <= i < now.len() - 1 implies (#[trigger] now[i]).last() == '\n' by {
                assert(now[i] == before[i]);
            }
        }
    }
}

/// A single line has itself as its only line.
pub proof fn one_line_is_its_own_lines(line: Seq<char>)
    requires
        is_line(line),
    ensures
        inclusive_lines(line) == seq![line],
    decreases line.len(),
{
    let shorter = line.drop_last();
    assert(shorter.push(line.last()) =~= line);
    if shorter.len() > 0 {
        assert(is_line(shorter)) by {
            assert forall|i: int| 0 <= i < shorter.len() - 1 implies #[trigger] shorter[i] != '\n' by {
                assert(line[i] != '\n');
            }
        }
        one_line_is_its_own_lines(shorter);
        assert(line[shorter.len() - 1] != '\n');
        let before = inclusive_lines(shorter);
        assert(before.drop_last().push(before.last().push(line.last())) =~= seq![line]);
    } else {
        assert(inclusive_lines(shorter).len() == 0);
        assert(seq![line.last()] =~= line);
        assert(inclusive_lines(shorter).push(seq![line.last()]) =~= seq![line]);
    }
}

/// After a finished line, the lines of what follows are counted on their own.
pub proof fn inclusive_lines_of_concat(a: Seq<char>, b: Seq<char>)
    requires
        a.len() == 0 || a.last() == '\n',
    ensures
        inclusive_lines(a + b) == inclusive_lines(a) + inclusive_lines(b),
    decreases b.len(),
{
    inclusive_lines_shape(a);
    if b.len() == 0 {
        assert(a + b =~= a);
        assert(inclusive_lines(a) + inclusive_lines(b) =~= inclusive_lines(a));
    } else {
        let whole = a + b;
        assert(whole.drop_last() =~= a + b.drop_last());
        inclusive_lines_of_concat(a, b.drop_last());
        inclusive_lines_shape(b.drop_last());
        let la = inclusive_lines(a);
        let lb = inclusive_lines(b.drop_last());
        let before = la + lb;
        assert(whole.last() == b.last());
        if lb.len() == 0 {
            assert(before =~= la);
            assert(inclusive_lines(whole) =~= la.push(seq![b.last()]));
            assert(inclusive_lines(b) =~= lb.push(seq![b.last()]));
            assert(la + lb.push(seq![b.last()]) =~= la.push(seq![b.last()]));
        } else {
            assert(before.last() == lb.last());
            if lb.last().last() == '\n' {
                assert(la + lb.push(seq![b.last()]) =~= before.push(seq![b.last()]));
            } else {
                let grown = lb.last().push(b.last());
                assert(la + lb.drop_last().push(grown) =~= before.drop_last().push(grown));
            }
        }
    }
}

/// The texts of two lists, one list after the other.
pub proof fn flat_of_concat(a: Seq<Seq<char>>, b: Seq<Seq<char>>)
    ensures
        flat(a + b) == flat(a) + flat(b),
    decreases b.len(),
{
    if b.len() == 0 {
        assert(a + b =~= a);
        assert(flat(a) + flat(b) =~= flat(a));
    } else {
        assert((a + b).drop_last() =~= a + b.drop_last());
        flat_of_concat(a, b.drop_last());
        assert(flat(a) + (flat(b.drop_last()) + b.last()) =~= flat(a) + flat(b.drop_last())
            + b.last());
    }
}

/// Lines put together and taken apart again are the same lines.
pub proof fn flat_lines_split_again(lines: Seq<Seq<char>>)
    requires
        are_lines(lines),
    ensures
        inclusive_lines(flat(lines)) == lines,
        flat(lines).len() > 0 ==> flat(lines).last() == lines.last().last(),
        lines.len() > 0 ==> flat(lines).len() > 0,
    decreases lines.len(),
{
    if lines.len() > 0 {
        let front = lines.drop_last();
        assert(are_lines(front)) by {
            assert forall|i: int| 0 <= i < front.len() implies is_line(#[trigger] front[i]) by {
                assert(is_line(lines[i]));
            }
            assert forall|i: int| 0 <= i < front.len() - 1 implies (#[trigger] front[i]).last()
                == '\n' by {
                assert(lines[i].last() == '\n');
            }
        }
        flat_lines_split_again(front);
        if front.len() > 0 {
            assert(lines[front.len() - 1].last() == '\n');
            assert(front.last() == lines[front.len() - 1]);
        }
        assert(is_line(lines[lines.len() - 1]));
        inclusive_lines_of_concat(flat(front), lines.last());
        one_line_is_its_own_lines(lines.last());
        assert(front + seq![lines.last()] =~= lines);
    } else {
        assert(inclusive_lines(flat(lines)) =~= lines);
    }
}

/// The lines of `s`, each with the line feed that ends it.
pub fn split_lines(s: &str) -> (out: Vec<String>)
    ensures
        views(out@) == inclusive_lines(s@),
{
    let text = chars_of(s);
    let mut out: Vec<String> = Vec::new();
    let mut current = String::new();
    let mut open = false;
    proof {
        assert(text@.take(0) =~= Seq::<char>::empty());
        assert(views(out@) =~= inclusive_lines(text@.take(0)));
    }
    for i in 0..text.len()
        invariant
            text@ == s@,
            open ==> views(out@).push(current@) == inclusive_lines(text@.take(i as int))
                && current@.len() > 0 && current@.last() != '\n',
            !open ==> views(out@) == inclusive_lines(text@.take(i as int)) && current@.len() == 0
                && (out@.len() == 0 || views(out@).last().last() == '\n'),
    {
        let ghost done = views(out@);
        let ghost piece = current@;
        let ghost prefix = text@.take(i + 1);
        let c = text[i];
        proof {
            assert(prefix.drop_last() =~= text@.take(i as int));
            assert(prefix.last() == c);
            assert(done.push(piece).drop_last() =~= done);
            assert(piece.len() == 0 ==> piece.push(c) =~= seq![c]);
        }
        current.push(c);
        if c == '\n' {
            out.push(current);
            current = String::new();
            open = false;
            proof {
                assert(views(out@) =~= done.push(piece.push(c)));
            }
        } else {
            open = true;
        }
    }
    let ghost done = views(out@);
    let ghost piece = current@;
    proof {
        assert(text@.take(text@.len() as int) =~= s@);
    }
    if open {
        out.push(current);
        proof {
            assert(views(out@) =~= done.push(piece));
        }
    }
    out
}

/// A line without the line feeds and carriage returns at its end.
pub fn body_of_line(line: &str) -> (out: String)
    ensures
        out@ == line_body(line@),
{
    let text = chars_of(line);
    let mut to: usize = text.len();
    proof {
        assert(text@.take(to as int) =~= line@);
    }
    while to > 0 && (text[to - 1] == '\n' || text[to - 1] == '\r')
        invariant
            to <= text.len(),
            text@ == line@,
            line_body(text@.take(to as int)) == line_body(line@),
        decreases to,
    {
        proof {
            assert(text@.take(to as int).drop_last() =~= text@.take(to - 1));
            assert(text@.take(to as int).last() == text@[to - 1]);
        }
        to = to - 1;
    }
    proof {
        assert(text@.take(to as int) =~= text@.subrange(0, to as int));
        assert(to > 0 ==> text@.take(to as int).last() == text@[to - 1]);
    }
    text_between(&text, 0, to)
}

/// The pieces of a text that were joined with a separator that none of them
/// holds are the pieces of the text.
pub proof fn split_undoes_join(parts: Seq<Seq<char>>, sep: char)
    requires
        parts.len() > 0,
        forall|i: int| 0 <= i < parts.len() ==> !(#[trigger] parts[i]).contains(sep),
    ensures
        split(join_with(parts, seq![sep]), sep) == parts,
    decreases parts.len(),
{
    if parts.len() == 1 {
        split_of_one_piece(parts[0], sep);
        assert(seq![parts[0]] =~= parts);
    } else {
        let front = parts.drop_last();
        assert forall|i: int| 0 <= i < front.len() implies !(#[trigger] front[i]).contains(sep) by {
            assert(!parts[i].contains(sep));
        }
        split_undoes_join(front, sep);
        assert(!parts[parts.len() - 1].contains(sep));
        split_of_added_piece(join_with(front, seq![sep]), parts.last(), sep);
        assert(front.push(parts.last()) =~= parts);
    }
}

/// A text without the separator is its own only piece.
pub proof fn split_of_one_piece(piece: Seq<char>, sep: char)
    requires
        !piece.contains(sep),
    ensures
        split(piece, sep) == seq![piece],
    decreases piece.len(),
{
    if piece.len() > 0 {
        let shorter = piece.drop_last();
        if shorter.contains(sep) {
            let i = choose|i: int| 0 <= i < shorter.len() && shorter[i] == sep;
            assert(piece[i] == sep);
        }
        split_of_one_piece(shorter, sep);
        assert(piece[piece.len() - 1] == piece.last());
        assert(shorter.push(piece.last()) =~= piece);
        let before = split(shorter, sep);
        assert(before.drop_last().push(before.last().push(piece.last())) =~= seq![piece]);
    } else {
        assert(piece =~= Seq::<char>::empty());
    }
}

/// A separator and a further piece add that piece.
pub proof fn split_of_added_piece(s: Seq<char>, piece: Seq<char>, sep: char)
    requires
        !piece.contains(sep),
    ensures
        split(s + seq![sep] + piece, sep) == split(s, sep).push(piece),
    decreases piece.len(),
{
    let whole = s + seq![sep] + piece;
    let before = split(s, sep);
    if piece.len() == 0 {
        assert(whole.drop_last() =~= s);
        assert(whole.last() == sep);
        assert(piece =~= Seq::<char>::empty());
    } else {
        let shorter = piece.drop_last();
        if shorter.contains(sep) {
            let i = choose|i: int| 0 <= i < shorter.len() && shorter[i] == sep;
            assert(piece[i] == sep);
        }
        assert(piece[piece.len() - 1] == piece.last());
        split_of_added_piece(s, shorter, sep);
        assert(whole.drop_last() =~= s + seq![sep] + shorter);
        assert(whole.last() == piece.last());
        assert(shorter.push(piece.last()) =~= piece);
        assert(before.push(shorter).drop_last() =~= before);
    }
}

/// The pieces of two texts with a separator between them.
pub proof fn split_of_concat(a: Seq<char>, b: Seq<char>, sep: char)
    ensures
        split(a + seq![sep] + b, sep) == split(a, sep) + split(b, sep),
    decreases b.len(),
{
    let whole = a + seq![sep] + b;
    if b.len() == 0 {
        assert(whole.drop_last() =~= a);
        assert(whole.last() == sep);
        assert(split(a, sep) + split(b, sep) =~= split(a, sep).push(Seq::<char>::empty()));
    } else {
        let shorter = b.drop_last();
        split_of_concat(a, shorter, sep);
        split_is_not_empty(shorter, sep);
        assert(whole.drop_last() =~= a + seq![sep] + shorter);
        assert(whole.last() == b.last());
        let left = split(a, sep);
        let right = split(shorter, sep);
        assert((left + right).last() == right.last());
        if b.last() == sep {
            assert((left + right).push(Seq::<char>::empty()) =~= left + right.push(
                Seq::<char>::empty(),
            ));
        } else {
            let grown = right.last().push(b.last());
            assert((left + right).drop_last().push(grown) =~= left + right.drop_last().push(grown));
        }
    }
}

/// The pieces of a text, put together with the separator, are the text.
pub proof fn join_undoes_split(s: Seq<char>, sep: char)
    ensures
        join_with(split(s, sep), seq![sep]) == s,
    decreases s.len(),
{
    let parts = split(s, sep);
    if s.len() == 0 {
        assert(join_with(parts, seq![sep]) =~= s);
    } else {
        let shorter = s.drop_last();
        let before = split(shorter, sep);
        split_is_not_empty(shorter, sep);
        join_undoes_split(shorter, sep);
        assert(shorter.push(s.last()) =~= s);
        if s.last() == sep {
            assert(parts.drop_last() =~= before);
            assert(shorter + seq![sep] + Seq::<char>::empty() =~= s);
        } else {
            let grown = before.last().push(s.last());
            assert(parts.drop_last() =~= before.drop_last());
            if before.len() == 1 {
                assert(before[0].push(s.last()) =~= s);
            } else {
                assert(join_with(before.drop_last(), seq![sep]) + seq![sep] + grown =~= s);
            }
        }
    }
}

/// Fewer parts make no longer text.
pub proof fn join_of_fewer_is_no_longer(parts: Seq<Seq<char>>, sep: Seq<char>, n: int)
    requires
        0 <= n <= parts.len(),
    ensures
        join_with(parts.take(n), sep).len() <= join_with(parts, sep).len(),
    decreases parts.len(),
{
    if n < parts.len() {
        join_of_fewer_is_no_longer(parts.drop_last(), sep, n);
        assert(parts.drop_last().take(n) =~= parts.take(n));
        if parts.len() == 1 {
            assert(parts.take(n).len() == 0);
        }
    } else {
        assert(parts.take(n) =~= parts);
    }
}

/// A text has at least one piece.
pub proof fn split_is_not_empty(s: Seq<char>, sep: char)
    ensures
        split(s, sep).len() >= 1,
    decreases s.len(),
{
    if s.len() > 0 {
        split_is_not_empty(s.drop_last(), sep);
    }
}

/// No piece holds the separator.
pub proof fn split_pieces_hold_no_separator(s: Seq<char>, sep: char)
    ensures
        forall|i: int| 0 <= i < split(s, sep).len() ==> !(#[trigger] split(s, sep)[i]).contains(sep),
    decreases s.len(),
{
    if s.len() > 0 {
        let before = split(s.drop_last(), sep);
        split_is_not_empty(s.drop_last(), sep);
        split_pieces_hold_no_separator(s.drop_last(), sep);
        assert forall|i: int| 0 <= i < split(s, sep).len() implies !(#[trigger] split(
            s,
            sep,
        )[i]).contains(sep) by {
            if i < before.len() {
                assert(!before[i].contains(sep));
            }
            if s.last() != sep && i == before.len() - 1 {
                let grown = before.last().push(s.last());
                assert(split(s, sep)[i] == grown);
                if grown.contains(sep) {
                    let j = choose|j: int| 0 <= j < grown.len() && grown[j] == sep;
                    if j < before.last().len() {
                        assert(before.last()[j] == sep);
                    }
                }
            }
        }
    }
}

/// The pieces of `s` between the occurrences of `sep`.
pub fn split_on(s: &str, sep: char) -> (out: Vec<String>)
    ensures
        views(out@) == split(s@, sep),
{
    let text = chars_of(s);
    let mut out: Vec<String> = Vec::new();
    let mut current = String::new();
    proof {
        assert(text@.take(0) =~= Seq::<char>::empty());
        assert(views(out@).push(current@) =~= split(text@.take(0), sep));
    }
    for i in 0..text.len()
        invariant
            text@ == s@,
            views(out@).push(current@) == split(text@.take(i as int), sep),
    {
        let ghost done = views(out@);
        let ghost piece = current@;
        proof {
            assert(text@.take(i + 1).drop_last() =~= text@.take(i as int));
            assert(text@.take(i + 1).last() == text@[i as int]);
            assert(done.push(piece).drop_last() =~= done);
        }
        if text[i] == sep {
            out.push(current);
            current = String::new();
            proof {
                assert(views(out@) =~= done.push(piece));
            }
        } else {
            current.push(text[i]);
        }
    }
    let ghost done = views(out@);
    let ghost piece = current@;
    out.push(current);
    proof {
        assert(text@.take(text@.len() as int) =~= s@);
        assert(views(out@) =~= done.push(piece));
    }
    out
}

/// The texts of `parts`, with `sep` between each two.
pub fn join_list(parts: &Vec<String>, sep: &str) -> (out: String)
    ensures
        out@ == join_with(views(parts@), sep@),
{
    let mut out = String::new();
    for i in 0..parts.len()
        invariant
            out@ == join_with(views(parts@).take(i as int), sep@),
    {
        proof {
            let now = views(parts@).take(i as int);
            let next = views(parts@).take(i + 1);
            assert(next.drop_last() =~= now);
            assert(next.last() == parts@[i as int]@);
            if i == 0 {
                assert(Seq::<char>::empty() + parts@[0]@ =~= parts@[0]@);
            }
        }
        if i > 0 {
            out.append(sep);
        }
        out.append(parts[i].as_str());
    }
    proof {
        assert(views(parts@).take(parts@.len() as int) =~= views(parts@));
    }
    out
}

/// Whether Unicode calls the character white space.
pub fn is_space_char(c: char) -> (out: bool)
    ensures
        out == is_space(c),
{
    let n: u32 = c as u32;
    (9 <= n && n <= 13) || n == 32 || n == 0x85 || n == 0xA0 || n == 0x1680 || (0x2000 <= n && n
        <= 0x200A) || n == 0x2028 || n == 0x2029 || n == 0x202F || n == 0x205F || n == 0x3000
}

proof fn trim_front_skips(s: Seq<char>, from: int)
    requires
        0 <= from <= s.len(),
        forall|i: int| 0 <= i < from ==> is_space(#[trigger] s[i]),
        from == s.len() || !is_space(s[from]),
    ensures
        trim_front(s) == s.skip(from),
    decreases from,
{
    if from > 0 {
        assert(is_space(s[0]));
        assert forall|i: int| 0 <= i < from - 1 implies is_space(#[trigger] s.drop_first()[i]) by {
            assert(is_space(s[i + 1]));
        }
        trim_front_skips(s.drop_first(), from - 1);
        assert(s.drop_first().skip(from - 1) =~= s.skip(from));
    } else {
        assert(s.skip(0) =~= s);
    }
}

proof fn trim_back_takes(s: Seq<char>, to: int)
    requires
        0 <= to <= s.len(),
        forall|i: int| to <= i < s.len() ==> is_space(#[trigger] s[i]),
        to == 0 || !is_space(s[to - 1]),
    ensures
        trim_back(s) == s.take(to),
    decreases s.len() - to,
{
    if to < s.len() {
        assert(is_space(s[s.len() - 1]));
        assert forall|i: int| to <= i < s.len() - 1 implies is_space(#[trigger] s.drop_last()[i]) by {
            assert(is_space(s[i]));
        }
        trim_back_takes(s.drop_last(), to);
        assert(s.drop_last().take(to) =~= s.take(to));
    } else {
        assert(s.take(to) =~= s);
    }
}

/// `s` without the white space at either end.
pub fn trim_text(s: &str) -> (out: String)
    ensures
        out@ == trimmed(s@),
{
    let text = chars_of(s);
    let mut from: usize = 0;
    while from < text.len() && is_space_char(text[from])
        invariant
            from <= text.len(),
            forall|i: int| 0 <= i < from ==> is_space(#[trigger] text@[i]),
        decreases text.len() - from,
    {
        from = from + 1;
    }
    let mut to: usize = text.len();
    while to > from && is_space_char(text[to - 1])
        invariant
            from <= to <= text.len(),
            forall|i: int| to <= i < text.len() ==> is_space(#[trigger] text@[i]),
        decreases to,
    {
        to = to - 1;
    }
    proof {
        let front = text@.skip(from as int);
        trim_front_skips(text@, from as int);
        assert forall|i: int| to - from <= i < front.len() implies is_space(#[trigger] front[i]) by {
            assert(is_space(text@[i + from]));
        }
        trim_back_takes(front, to - from);
        assert(front.take(to - from) =~= text@.subrange(from as int, to as int));
    }
    text_between(&text, from, to)
}

/// A text trims to nothing exactly when it is blank.
pub proof fn blank_trims_to_nothing(s: Seq<char>)
    ensures
        is_blank(s) <==> trimmed(s).len() == 0,
{
    trim_front_facts(s);
    trim_back_facts(trim_front(s));
}

proof fn trim_front_facts(s: Seq<char>)
    ensures
        is_blank(s) <==> trim_front(s).len() == 0,
        trim_front(s).len() > 0 ==> !is_space(trim_front(s)[0]),
    decreases s.len(),
{
    if s.len() > 0 && is_space(s[0]) {
        trim_front_facts(s.drop_first());
        if is_blank(s.drop_first()) {
            assert forall|i: int| 0 <= i < s.len() implies is_space(#[trigger] s[i]) by {
                if i > 0 {
                    assert(is_space(s.drop_first()[i - 1]));
                }
            }
        }
        if is_blank(s) {
            assert forall|i: int| 0 <= i < s.drop_first().len() implies is_space(
                #[trigger] s.drop_first()[i],
            ) by {
                assert(is_space(s[i + 1]));
            }
        }
    }
}

proof fn trim_back_facts(s: Seq<char>)
    ensures
        trim_back(s).len() <= s.len(),
        s.len() > 0 && !is_space(s[0]) ==> trim_back(s).len() > 0,
    decreases s.len(),
{
    if s.len() > 0 && is_space(s.last()) {
        trim_back_facts(s.drop_last());
    }
}

/// Whether `s` holds nothing but white space.
pub fn blank(s: &str) -> (out: bool)
    ensures
        out == is_blank(s@),
{
    let text = chars_of(s);
    for i in 0..text.len()
        invariant
            text@ == s@,
            forall|j: int| 0 <= j < i ==> is_space(#[trigger] text@[j]),
    {
        if !is_space_char(text[i]) {
            return false;
        }
    }
    true
}

fn digit_of(d: u64) -> (out: char)
    requires
        d < 10,
    ensures
        out == digit_char(d as nat),
{
    if d == 0 {
        '0'
    } else if d == 1 {
        '1'
    } else if d == 2 {
        '2'
    } else if d == 3 {
        '3'
    } else if d == 4 {
        '4'
    } else if d == 5 {
        '5'
    } else if d == 6 {
        '6'
    } else if d == 7 {
        '7'
    } else if d == 8 {
        '8'
    } else {
        '9'
    }
}

/// The decimal digits of `n`.
pub fn decimal_text(n: u64) -> (out: String)
    ensures
        out@ == decimal(n as nat),
    decreases n,
{
    if n < 10 {
        let mut out = String::new();
        out.push(digit_of(n));
        proof {
            assert(out@ =~= seq![digit_char(n as nat)]);
        }
        out
    } else {
        let mut out = decimal_text(n / 10);
        out.push(digit_of(n % 10));
        out
    }
}

/// Whether the character is a decimal digit.
pub open spec fn is_digit(c: char) -> bool {
    '0' <= c && c <= '9'
}

/// A number is written with digits only.
pub proof fn decimal_is_digits(n: nat)
    ensures
        decimal(n).len() > 0,
        forall|i: int| 0 <= i < decimal(n).len() ==> is_digit(#[trigger] decimal(n)[i]),
    decreases n,
{
    if n >= 10 {
        decimal_is_digits(n / 10);
        let front = decimal(n / 10);
        assert forall|i: int| 0 <= i < decimal(n).len() implies is_digit(
            #[trigger] decimal(n)[i],
        ) by {
            if i < front.len() {
                assert(decimal(n)[i] == front[i]);
            }
        }
    }
}

/// Two numbers that are written alike are the same.
pub proof fn decimal_tells_numbers_apart(a: nat, b: nat)
    requires
        decimal(a) == decimal(b),
    ensures
        a == b,
    decreases a,
{
    decimal_is_digits(a / 10);
    decimal_is_digits(b / 10);
    assert(decimal(a).last() == digit_char(a % 10));
    assert(decimal(b).last() == digit_char(b % 10));
    if a >= 10 && b >= 10 {
        assert(decimal(a).drop_last() =~= decimal(a / 10));
        assert(decimal(b).drop_last() =~= decimal(b / 10));
        decimal_tells_numbers_apart(a / 10, b / 10);
    }
}

/// What a digit counts.
pub open spec fn digit_value(c: char) -> nat {
    (c as int - '0' as int) as nat
}

/// The number whose digits these are.
pub open spec fn decimal_value(digits: Seq<char>) -> nat
    decreases digits.len(),
{
    if digits.len() == 0 {
        0
    } else {
        10 * decimal_value(digits.drop_last()) + digit_value(digits.last())
    }
}

/// The number that a text of digits stands for; none for another text.
pub open spec fn read_decimal(s: Seq<char>) -> Option<nat> {
    if s.len() > 0 && forall|i: int| 0 <= i < s.len() ==> is_digit(#[trigger] s[i]) {
        Some(decimal_value(s))
    } else {
        None
    }
}

/// The number that a text of digits stands for; none for another text, nor for
/// a number that is too large.
pub fn parse_decimal(s: &str) -> (out: Option<u64>)
    ensures
        match read_decimal(s@) {
            Some(n) => if n <= u64::MAX {
                out == Some(n as u64)
            } else {
                out is None
            },
            None => out is None,
        },
{
    let digits = chars_of(s);
    if digits.len() == 0 {
        return None;
    }
    for i in 0..digits.len()
        invariant
            digits@ == s@,
            forall|j: int| 0 <= j < i ==> is_digit(#[trigger] s@[j]),
    {
        if !('0' <= digits[i] && digits[i] <= '9') {
            proof {
                assert(!is_digit(s@[i as int]));
            }
            return None;
        }
    }
    let mut value: u64 = 0;
    proof {
        assert(s@.take(0) =~= Seq::<char>::empty());
    }
    for i in 0..digits.len()
        invariant
            digits@ == s@,
            forall|j: int| 0 <= j < s@.len() ==> is_digit(#[trigger] s@[j]),
            value == decimal_value(s@.take(i as int)),
    {
        let digit: u64 = digits[i] as u64 - '0' as u64;
        proof {
            assert(s@.take(i + 1).drop_last() =~= s@.take(i as int));
            assert(s@.take(i + 1).last() == s@[i as int]);
            assert(is_digit(s@[i as int]));
        }
        if value > (u64::MAX - digit) / 10 {
            proof {
                assert(10 * value + digit > u64::MAX) by (nonlinear_arith)
                    requires
                        value > (u64::MAX - digit) / 10,
                        digit <= 9,
                ;
                value_grows(s@, i + 1);
            }
            return None;
        }
        value = 10 * value + digit;
    }
    proof {
        assert(s@.take(s@.len() as int) =~= s@);
    }
    Some(value)
}

proof fn value_grows(digits: Seq<char>, n: int)
    requires
        0 <= n <= digits.len(),
    ensures
        decimal_value(digits.take(n)) <= decimal_value(digits),
    decreases digits.len(),
{
    if n < digits.len() {
        assert(digits.drop_last().take(n) =~= digits.take(n));
        value_grows(digits.drop_last(), n);
    } else {
        assert(digits.take(n) =~= digits);
    }
}

/// The digits of a number stand for it.
pub proof fn decimal_reads_back(n: nat)
    ensures
        read_decimal(decimal(n)) == Some(n),
    decreases n,
{
    decimal_is_digits(n);
    if n >= 10 {
        decimal_reads_back(n / 10);
        assert(decimal(n).drop_last() =~= decimal(n / 10));
    } else {
        assert(decimal(n).drop_last() =~= Seq::<char>::empty());
        assert(decimal_value(Seq::<char>::empty()) == 0);
    }
    assert(digit_value(decimal(n).last()) == n % 10);
}

/// What a line says.
pub fn text_of_line(line: &str) -> (out: String)
    ensures
        out@ == line_text(line@),
{
    let text = chars_of(line);
    let mut to: usize = text.len();
    if to > 0 && text[to - 1] == '\n' {
        to = to - 1;
        if to > 0 && text[to - 1] == '\r' {
            to = to - 1;
        }
    }
    let out = text_between(&text, 0, to);
    proof {
        assert(out@ =~= line_text(line@));
    }
    out
}

/// The number, with a minus sign where it is negative.
pub fn signed_text(n: i64) -> (out: String)
    ensures
        out@ == signed_decimal(n as int),
{
    if n >= 0 {
        return decimal_text(n as u64);
    }
    let size: u64 = if n == i64::MIN {
        9223372036854775808
    } else {
        (-n) as u64
    };
    let mut out = String::new();
    out.push('-');
    proof {
        assert(out@ =~= seq!['-']);
    }
    out.append(decimal_text(size).as_str());
    out
}

/// The text with spaces in front of it, so that it is at least `width` long.
pub fn pad_left(s: &str, width: usize) -> (out: String)
    ensures
        out@ == padded(s@, width as nat),
{
    let mut out = owned(s);
    let mut len: usize = chars_of(s).len();
    while len < width
        invariant
            len == out@.len(),
            padded(out@, width as nat) == padded(s@, width as nat),
        decreases width - len,
    {
        let mut next = String::new();
        next.push(' ');
        proof {
            assert(next@ =~= seq![' ']);
        }
        next.append(out.as_str());
        out = next;
        len = len + 1;
    }
    out
}

/// A copy of an optional text.
pub fn copy_opt(a: &Option<String>) -> (out: Option<String>)
    ensures
        opt_view(out) == opt_view(*a),
{
    match a {
        Some(t) => Some(t.clone()),
        None => None,
    }
}

/// The text made of two texts, one after the other.
pub fn cat2(a: &str, b: &str) -> (out: String)
    ensures
        out@ == a@ + b@,
{
    let mut out = a.to_owned();
    out.append(b);
    out
}

/// The text made of three texts, one after the other.
pub fn cat3(a: &str, b: &str, c: &str) -> (out: String)
    ensures
        out@ == a@ + b@ + c@,
{
    let mut out = cat2(a, b);
    out.append(c);
    out
}

/// The text made of four texts, one after the other.
pub fn cat4(a: &str, b: &str, c: &str, d: &str) -> (out: String)
    ensures
        out@ == a@ + b@ + c@ + d@,
{
    let mut out = cat3(a, b, c);
    out.append(d);
    out
}

/// The text made of five texts, one after the other.
pub fn cat5(a: &str, b: &str, c: &str, d: &str, e: &str) -> (out: String)
    ensures
        out@ == a@ + b@ + c@ + d@ + e@,
{
    let mut out = cat4(a, b, c, d);
    out.append(e);
    out
}

/// Whether `wanted` stands in the text from `at` on.
pub open spec fn stands_at(text: Seq<char>, wanted: Seq<char>, at: int) -> bool {
    &&& 0 <= at <= text.len() - wanted.len()
    &&& text.subrange(at, at + wanted.len()) == wanted
}

/// Where `wanted` stands first in the text, from `from` on.
pub open spec fn first_place(text: Seq<char>, wanted: Seq<char>, from: int) -> Option<int>
    decreases text.len() + 1 - from,
{
    if from < 0 || from > text.len() {
        None
    } else if stands_at(text, wanted, from) {
        Some(from)
    } else {
        first_place(text, wanted, from + 1)
    }
}

/// Whether `wanted` stands in the text from `at` on.
pub fn is_at(text: &Vec<char>, wanted: &Vec<char>, at: usize) -> (out: bool)
    requires
        at <= text.len(),
    ensures
        out == stands_at(text@, wanted@, at as int),
{
    if wanted.len() > text.len() - at {
        return false;
    }
    for i in 0..wanted.len()
        invariant
            at + wanted.len() <= text.len(),
            forall|j: int| 0 <= j < i ==> text@[at + j] == wanted@[j],
    {
        if text[at + i] != wanted[i] {
            proof {
                assert(text@.subrange(at as int, at + wanted@.len())[i as int] != wanted@[i as int]);
            }
            return false;
        }
    }
    proof {
        assert(text@.subrange(at as int, at + wanted@.len()) =~= wanted@);
    }
    true
}

/// Where `wanted` stands first in the text.
pub fn find_text(text: &Vec<char>, wanted: &Vec<char>) -> (out: Option<usize>)
    ensures
        match first_place(text@, wanted@, 0) {
            Some(at) => out matches Some(found) && found == at && found + wanted@.len()
                <= text@.len(),
            None => out is None,
        },
{
    let total: usize = text.len();
    let mut at: usize = 0;
    while at < total
        invariant
            at <= total == text@.len(),
            first_place(text@, wanted@, 0) == first_place(text@, wanted@, at as int),
        decreases total - at,
    {
        if is_at(text, wanted, at) {
            return Some(at);
        }
        at = at + 1;
    }
    if is_at(text, wanted, total) {
        return Some(total);
    }
    proof {
        assert(first_place(text@, wanted@, total + 1) is None);
    }
    None
}

/// The first place is a place, and no place is before it.
pub proof fn first_place_is_first(text: Seq<char>, wanted: Seq<char>, from: int)
    requires
        0 <= from <= text.len() + 1,
    ensures
        match first_place(text, wanted, from) {
            Some(at) => from <= at && stands_at(text, wanted, at) && forall|i: int|
                from <= i < at ==> !#[trigger] stands_at(text, wanted, i),
            None => forall|i: int| from <= i ==> !#[trigger] stands_at(text, wanted, i),
        },
    decreases text.len() + 1 - from,
{
    if from <= text.len() && !stands_at(text, wanted, from) {
        first_place_is_first(text, wanted, from + 1);
    }
}

/// A place before which there is none is the first.
pub proof fn only_place_is_first(text: Seq<char>, wanted: Seq<char>, from: int, at: int)
    requires
        0 <= from <= at,
        stands_at(text, wanted, at),
        forall|i: int| from <= i < at ==> !#[trigger] stands_at(text, wanted, i),
    ensures
        first_place(text, wanted, from) == Some(at),
    decreases at - from,
{
    if from < at {
        only_place_is_first(text, wanted, from + 1, at);
    }
}

proof fn trim_front_of_padded(left: Seq<char>, t: Seq<char>)
    requires
        is_blank(left),
        t.len() > 0 ==> !is_space(t[0]),
    ensures
        trim_front(left + t) == t,
    decreases left.len(),
{
    if left.len() > 0 {
        assert(is_space(left[0]));
        assert((left + t)[0] == left[0]);
        assert((left + t).drop_first() =~= left.drop_first() + t);
        assert(is_blank(left.drop_first())) by {
            assert forall|i: int| 0 <= i < left.drop_first().len() implies is_space(
                #[trigger] left.drop_first()[i],
            ) by {
                assert(is_space(left[i + 1]));
            }
        }
        trim_front_of_padded(left.drop_first(), t);
    } else {
        assert(left + t =~= t);
    }
}

proof fn trim_back_of_padded(t: Seq<char>, right: Seq<char>)
    requires
        is_blank(right),
        t.len() > 0 ==> !is_space(t.last()),
    ensures
        trim_back(t + right) == t,
    decreases right.len(),
{
    if right.len() > 0 {
        assert(is_space(right[right.len() - 1]));
        assert((t + right).last() == right[right.len() - 1]);
        assert((t + right).drop_last() =~= t + right.drop_last());
        assert(is_blank(right.drop_last())) by {
            assert forall|i: int| 0 <= i < right.drop_last().len() implies is_space(
                #[trigger] right.drop_last()[i],
            ) by {
                assert(is_space(right[i]));
            }
        }
        trim_back_of_padded(t, right.drop_last());
    } else {
        assert(t + right =~= t);
    }
}

/// To trim a text takes the white space off both of its ends and nothing else.
pub proof fn only_the_ends_are_trimmed(left: Seq<char>, t: Seq<char>, right: Seq<char>)
    requires
        is_blank(left),
        is_blank(right),
        t.len() > 0 ==> !is_space(t[0]) && !is_space(t.last()),
    ensures
        trimmed(left + t + right) == t,
{
    if t.len() == 0 {
        assert(is_blank(left + right)) by {
            assert forall|i: int| 0 <= i < (left + right).len() implies is_space(
                #[trigger] (left + right)[i],
            ) by {
                if i < left.len() {
                    assert(is_space(left[i]));
                } else {
                    assert(is_space(right[i - left.len()]));
                }
            }
        }
        assert(left + t + right =~= (left + right) + t);
        trim_front_of_padded(left + right, t);
        assert(trim_back(t) =~= t);
    } else {
        assert(left + t + right =~= left + (t + right));
        assert((t + right)[0] == t[0]);
        trim_front_of_padded(left, t + right);
        trim_back_of_padded(t, right);
    }
}

/// Every text is what it is trimmed to, with white space around it.
pub proof fn texts_are_trimmed_texts_with_space(s: Seq<char>) -> (ends: (int, int))
    ensures
        0 <= ends.0 <= ends.1 <= s.len(),
        trimmed(s) == s.subrange(ends.0, ends.1),
        is_blank(s.take(ends.0)),
        is_blank(s.skip(ends.1)),
        ends.0 < ends.1 ==> !is_space(s[ends.0]) && !is_space(s[ends.1 - 1]),
    decreases s.len(),
{
    if s.len() == 0 {
        assert(trimmed(s) =~= s.subrange(0, 0));
        (0, 0)
    } else if is_space(s[0]) {
        let rest = s.drop_first();
        let ends = texts_are_trimmed_texts_with_space(rest);
        assert(trimmed(s) == trimmed(rest));
        assert(rest.subrange(ends.0, ends.1) =~= s.subrange(ends.0 + 1, ends.1 + 1));
        assert(rest.skip(ends.1) =~= s.skip(ends.1 + 1));
        assert forall|i: int| 0 <= i < ends.0 + 1 implies is_space(
            #[trigger] s.take(ends.0 + 1)[i],
        ) by {
            if i > 0 {
                assert(is_space(rest.take(ends.0)[i - 1]));
            }
        }
        (ends.0 + 1, ends.1 + 1)
    } else if is_space(s.last()) {
        let rest = s.drop_last();
        let ends = texts_are_trimmed_texts_with_space(rest);
        assert(rest[0] == s[0]);
        assert(trim_front(s) == s && trim_front(rest) == rest);
        assert(rest.subrange(ends.0, ends.1) =~= s.subrange(ends.0, ends.1));
        assert(rest.take(ends.0) =~= s.take(ends.0));
        assert forall|i: int| 0 <= i < s.skip(ends.1).len() implies is_space(
            #[trigger] s.skip(ends.1)[i],
        ) by {
            if i + ends.1 < rest.len() {
                assert(is_space(rest.skip(ends.1)[i]));
            }
        }
        ends
    } else {
        assert(s.subrange(0, s.len() as int) =~= s);
        (0, s.len() as int)
    }
}

/// Of the first characters, the white space is the blank and the five that move a
/// line or a page on.
pub proof fn plain_white_space(c: char)
    requires
        (c as u32) < 128,
    ensures
        is_space(c) <==> c == ' ' || c == '\t' || c == '\n' || c == '\r' || c as u32 == 11
            || c as u32 == 12,
{
}

/// A padded text is the text with so many blanks before it that it is as wide as
/// it should be, and no more.
pub proof fn padding_is_blanks_in_front(s: Seq<char>, width: nat)
    ensures
        padded(s, width).len() == if s.len() >= width {
            s.len()
        } else {
            width
        },
        padded(s, width).skip(padded(s, width).len() - s.len()) == s,
        forall|i: int|
            0 <= i < padded(s, width).len() - s.len() ==> #[trigger] padded(s, width)[i] == ' ',
    decreases width - s.len(),
{
    let all = padded(s, width);
    if s.len() >= width {
        assert(s.skip(0) =~= s);
    } else {
        let wider = seq![' '] + s;
        padding_is_blanks_in_front(wider, width);
        let n = all.len() - s.len();
        assert(all.skip(n - 1) == wider);
        assert(all.skip(n) =~= wider.skip(1));
        assert(wider.skip(1) =~= s);
        assert(all[n - 1] == all.skip(n - 1)[0]);
    }
}

/// What a line says is the line without its end: a line feed, with a carriage
/// return before it where there is one, and nothing else.
pub proof fn only_line_ends_are_taken_off(line: Seq<char>) -> (end: Seq<char>)
    ensures
        line == line_text(line) + end,
        end == Seq::<char>::empty() || end == seq!['\n'] || end == seq!['\r', '\n'],
        line.len() > 0 && line.last() == '\n' ==> end.len() > 0,
        line.len() > 1 && line.last() == '\n' && line[line.len() - 2] == '\r' ==> end.len() == 2,
{
    let end = line.skip(line_text(line).len() as int);
    assert(line =~= line_text(line) + end);
    if line.len() > 0 && line.last() == '\n' {
        if line.len() > 1 && line[line.len() - 2] == '\r' {
            assert(end =~= seq!['\r', '\n']);
        } else {
            assert(end =~= seq!['\n']);
        }
    } else {
        assert(end =~= Seq::<char>::empty());
    }
    end
}

/// The body of a line is the line without the line feeds and carriage returns
/// at its end.
pub proof fn bodies_are_lines_without_their_ends(line: Seq<char>) -> (end: Seq<char>)
    ensures
        line == line_body(line) + end,
        forall|i: int| 0 <= i < end.len() ==> #[trigger] end[i] == '\n' || end[i] == '\r',
        line_body(line).len() > 0 ==> line_body(line).last() != '\n' && line_body(line).last()
            != '\r',
    decreases line.len(),
{
    if line.len() > 0 && (line.last() == '\n' || line.last() == '\r') {
        let before = bodies_are_lines_without_their_ends(line.drop_last());
        let end = before.push(line.last());
        assert(line.drop_last() == line_body(line) + before);
        assert(line =~= line.drop_last().push(line.last()));
        assert(line =~= line_body(line) + end);
        assert forall|i: int| 0 <= i < end.len() implies #[trigger] end[i] == '\n' || end[i]
            == '\r' by {
            if i < before.len() {
                assert(end[i] == before[i]);
            }
        }
        end
    } else {
        assert(line =~= line + Seq::<char>::empty());
        Seq::empty()
    }
}

/// A negative number is shown as the number without its sign, behind a sign.
pub proof fn signs_stand_before_numbers(n: nat)
    ensures
        signed_decimal(n as int) == decimal(n),
        n > 0 ==> signed_decimal(-(n as int)) == "-"@ + decimal(n),
{
    reveal_strlit("-");
    assert("-"@ =~= seq!['-']);
}

/// A text is joined from its parts with the separator between each two, and
/// neither in front nor behind.
pub proof fn joined_texts_hold_their_parts(
    front: Seq<Seq<char>>,
    part: Seq<char>,
    back: Seq<Seq<char>>,
    sep: Seq<char>,
)
    ensures
        join_with(front.push(part) + back, sep) == (if front.len() == 0 {
            Seq::empty()
        } else {
            join_with(front, sep) + sep
        }) + part + (if back.len() == 0 {
            Seq::empty()
        } else {
            sep + join_with(back, sep)
        }),
    decreases back.len(),
{
    let head = front.push(part);
    assert(head.drop_last() =~= front);
    if back.len() == 0 {
        assert(head + back =~= head);
        assert(join_with(head, sep) =~= (if front.len() == 0 {
            Seq::empty()
        } else {
            join_with(front, sep) + sep
        }) + part + Seq::<char>::empty());
    } else {
        let whole = head + back;
        let shorter = back.drop_last();
        assert(whole.drop_last() =~= head + shorter);
        assert(whole.last() == back.last());
        joined_texts_hold_their_parts(front, part, shorter, sep);
        let lead = if front.len() == 0 {
            Seq::empty()
        } else {
            join_with(front, sep) + sep
        };
        if shorter.len() == 0 {
            assert(join_with(back, sep) == back.last());
            assert(join_with(whole, sep) =~= lead + part + (sep + back.last()));
        } else {
            assert(join_with(back, sep) == join_with(shorter, sep) + sep + back.last());
            assert(join_with(whole, sep) =~= lead + part + (sep + join_with(back, sep)));
        }
    }
}

/// The texts of a list are those of its strings, each in its place.
pub proof fn views_are_in_their_place(list: Seq<String>, i: int)
    requires
        0 <= i < list.len(),
    ensures
        views(list).len() == list.len(),
        views(list)[i] == list[i]@,
        opt_view(Some(list[i])) == Some(list[i]@),
        opt_view(None) is None,
{
}

/// A text begins with its prefix and ends with its suffix: it is the prefix and
/// something behind it, or something and the suffix behind that.
pub proof fn prefixes_begin_and_suffixes_end(s: Seq<char>, part: Seq<char>)
    ensures
        has_prefix(s, part) <==> exists|rest: Seq<char>| s == #[trigger] (part + rest),
        has_suffix(s, part) <==> exists|rest: Seq<char>| s == #[trigger] (rest + part),
{
    let n = part.len() as int;
    if has_prefix(s, part) {
        assert(s =~= part + s.skip(n));
    }
    if exists|rest: Seq<char>| s == #[trigger] (part + rest) {
        assert(s.take(n) =~= part);
    }
    if has_suffix(s, part) {
        assert(s =~= s.take(s.len() - n) + part);
    }
    if exists|rest: Seq<char>| s == #[trigger] (rest + part) {
        assert(s.skip(s.len() - n) =~= part);
    }
}

/// A text stands at a place in another exactly where that is some text, the text
/// and some text again, with as much before it as the place says.
pub proof fn texts_stand_where_they_are_found(text: Seq<char>, wanted: Seq<char>, at: int)
    ensures
        stands_at(text, wanted, at) <==> exists|left: Seq<char>, right: Seq<char>|
            left.len() == at && text == #[trigger] (left + wanted + right),
{
    if stands_at(text, wanted, at) {
        let left = text.take(at);
        let right = text.skip(at + wanted.len());
        assert(text =~= left + wanted + right);
        assert(left.len() == at);
    }
    if exists|left: Seq<char>, right: Seq<char>|
        left.len() == at && text == #[trigger] (left + wanted + right) {
        assert(text.subrange(at, at + wanted.len()) =~= wanted);
    }
}

/// A number is written with its last digit behind the digits of the tenth of it.
pub proof fn numbers_are_written_digit_by_digit(n: nat)
    ensures
        decimal(n).len() > 0,
        decimal(n).last() as int == 48 + n % 10,
        n < 10 ==> decimal(n).len() == 1,
        n >= 10 ==> decimal(n).drop_last() == decimal(n / 10),
{
    if n >= 10 {
        assert(decimal(n).drop_last() =~= decimal(n / 10));
    }
}

} // verus!
