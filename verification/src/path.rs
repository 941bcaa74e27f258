//! File system paths as text.
//!
//! Paths are the slash-separated paths of Unix.  A path is modelled by the
//! sequence of its characters.

use vstd::prelude::*;
use vstd::string::StringExecFns;

use crate::text::{
    chars_of, ends_with, join_list, join_of_fewer_is_no_longer, join_undoes_split, join_with, owned,
    same, split, split_is_not_empty, split_on, starts_with, text_between, views,
};

verus! {

/// The text of the separator.
pub open spec fn slash() -> Seq<char> {
    seq!['/']
}

/// The name of the directory itself.
pub open spec fn dot() -> Seq<char> {
    seq!['.']
}

/// The name of the directory above.
pub open spec fn dot_dot() -> Seq<char> {
    seq!['.', '.']
}

/// Whether the path starts at the root of the file system.
pub open spec fn absolute(p: Seq<char>) -> bool {
    p.len() > 0 && p[0] == '/'
}

/// `rel` seen from `base`.  An absolute path is seen from nowhere.
pub open spec fn joined(base: Seq<char>, rel: Seq<char>) -> Seq<char> {
    if absolute(rel) {
        rel
    } else if base.len() == 0 || base.last() == '/' {
        base + rel
    } else {
        base + slash() + rel
    }
}

/// Whether a piece between two separators names something.
pub open spec fn is_name(piece: Seq<char>) -> bool {
    piece.len() > 0 && piece != dot()
}

/// The pieces that name something, in their order.
pub open spec fn names(pieces: Seq<Seq<char>>) -> Seq<Seq<char>>
    decreases pieces.len(),
{
    if pieces.len() == 0 {
        Seq::empty()
    } else if is_name(pieces.last()) {
        names(pieces.drop_last()).push(pieces.last())
    } else {
        names(pieces.drop_last())
    }
}

/// Whether the path starts with the directory itself.
pub open spec fn starts_here(p: Seq<char>) -> bool {
    split(p, '/')[0] == dot()
}

/// The components of a path below its root: repeated separators and inner dots
/// name nothing.
pub open spec fn components(p: Seq<char>) -> Seq<Seq<char>> {
    if starts_here(p) {
        seq![dot()] + names(split(p, '/'))
    } else {
        names(split(p, '/'))
    }
}

/// Whether two paths are made of the same components.
pub open spec fn same_path(p: Seq<char>, q: Seq<char>) -> bool {
    absolute(p) == absolute(q) && components(p) == components(q)
}

/// Whether `p` is `base` or lies below it.  The empty path is in front of every
/// path.
pub open spec fn within(p: Seq<char>, base: Seq<char>) -> bool {
    &&& base.len() == 0 || absolute(p) == absolute(base)
    &&& components(base).len() <= components(p).len()
    &&& components(p).take(components(base).len() as int) == components(base)
}

/// The pieces from the name on that stands behind the first `n` names.
pub open spec fn after_names(pieces: Seq<Seq<char>>, n: nat) -> Seq<Seq<char>>
    decreases pieces.len(),
{
    if pieces.len() == 0 {
        pieces
    } else if !is_name(pieces[0]) {
        after_names(pieces.skip(1), n)
    } else if n == 0 {
        pieces
    } else {
        after_names(pieces.skip(1), (n - 1) as nat)
    }
}

/// The pieces up to the last one that names something.
pub open spec fn up_to_last_name(pieces: Seq<Seq<char>>) -> Seq<Seq<char>> {
    pieces.take(last_name(pieces) + 1)
}

/// What is left of the text of `p` behind the names of `base`: from a name to a
/// name, with what stands between them as it is.
pub open spec fn below(p: Seq<char>, base: Seq<char>) -> Seq<char> {
    if base.len() == 0 {
        p.take(lead(p)) + join_with(up_to_last_name(split(p.skip(lead(p)), '/')), slash())
    } else {
        join_with(
            up_to_last_name(after_names(split(p, '/'), names(split(base, '/')).len())),
            slash(),
        )
    }
}

/// Where the last piece stands that names something; below zero when none does.
pub open spec fn last_name(pieces: Seq<Seq<char>>) -> int
    decreases pieces.len(),
{
    if pieces.len() == 0 {
        -1
    } else if is_name(pieces.last()) {
        pieces.len() - 1
    } else {
        last_name(pieces.drop_last())
    }
}

/// How many characters stand before the first separated piece: a root or a
/// leading dot.
pub open spec fn lead(p: Seq<char>) -> int {
    if absolute(p) || starts_here(p) {
        1
    } else {
        0
    }
}

/// The directory that holds the path; none above a root or an empty path.
pub open spec fn parent(p: Seq<char>) -> Option<Seq<char>> {
    let pieces = split(p.skip(lead(p)), '/');
    let last = last_name(pieces);
    if last >= 0 {
        let above = pieces.take(last_name(pieces.take(last)) + 1);
        Some(p.take(lead(p)) + join_with(above, slash()))
    } else if starts_here(p) {
        Some(Seq::empty())
    } else {
        None
    }
}

/// The path and every directory above it, from the path up.
pub open spec fn ancestors(p: Seq<char>) -> Seq<Seq<char>>
    decreases p.len(),
{
    match parent(p) {
        Some(above) => if above.len() < p.len() {
            seq![p] + ancestors(above)
        } else {
            seq![p]
        },
        None => seq![p],
    }
}

/// The last name of a path, where it ends in one.
pub open spec fn file_name(p: Seq<char>) -> Option<Seq<char>> {
    let parts = components(p);
    if parts.len() == 0 || parts.last() == dot() || parts.last() == dot_dot() {
        None
    } else {
        Some(parts.last())
    }
}

/// The path with another last name; below the path where it ends in none.
pub open spec fn renamed(p: Seq<char>, name: Seq<char>) -> Seq<char> {
    match (file_name(p), parent(p)) {
        (Some(_), Some(dir)) => joined(dir, name),
        _ => joined(p, name),
    }
}

/// Whether the path starts at the root of the file system.
pub fn is_absolute(p: &str) -> (out: bool)
    ensures
        out == absolute(p@),
{
    proof {
        reveal_strlit("/");
        if p@.len() > 0 {
            assert(p@.take(1)[0] == p@[0]);
            assert(p@[0] == '/' ==> p@.take(1) =~= "/"@);
        }
    }
    starts_with(p, "/")
}

/// `rel` seen from `base`.
pub fn join(base: &str, rel: &str) -> (out: String)
    ensures
        out@ == joined(base@, rel@),
{
    if is_absolute(rel) {
        return owned(rel);
    }
    let mut out = owned(base);
    let closed = ends_with(base, "/");
    proof {
        reveal_strlit("/");
        if base@.len() > 0 {
            assert(base@.skip(base@.len() - 1)[0] == base@.last());
            assert(base@.last() == '/' ==> base@.skip(base@.len() - 1) =~= "/"@);
        }
    }
    if !base.is_empty() && !closed {
        out.push('/');
        proof {
            assert(out@ =~= base@ + slash());
        }
    }
    out.append(rel);
    out
}

fn names_something(piece: &str) -> (out: bool)
    ensures
        out == is_name(piece@),
{
    proof {
        reveal_strlit(".");
        assert("."@ =~= dot());
    }
    !piece.is_empty() && !same(piece, ".")
}

/// The components of a path below its root.
pub fn components_of(p: &str) -> (out: Vec<String>)
    ensures
        views(out@) == components(p@),
{
    let pieces = split_on(p, '/');
    let mut out: Vec<String> = Vec::new();
    proof {
        split_is_not_empty(p@, '/');
        assert(views(pieces@)[0] == pieces@[0]@);
        reveal_strlit(".");
        assert("."@ =~= dot());
    }
    if same(pieces[0].as_str(), ".") {
        out.push(owned("."));
    }
    let ghost head = views(out@);
    proof {
        assert(starts_here(p@) ==> head =~= seq![dot()]);
        assert(!starts_here(p@) ==> head =~= Seq::<Seq<char>>::empty());
        assert(views(pieces@).take(0) =~= Seq::<Seq<char>>::empty());
        assert(head + names(views(pieces@).take(0)) =~= head);
    }
    for i in 0..pieces.len()
        invariant
            views(pieces@) == split(p@, '/'),
            views(out@) == head + names(views(pieces@).take(i as int)),
    {
        let ghost before = views(out@);
        let ghost now = views(pieces@).take(i as int);
        let ghost next = views(pieces@).take(i + 1);
        proof {
            assert(next.drop_last() =~= now);
            assert(next.last() == pieces@[i as int]@);
        }
        if names_something(pieces[i].as_str()) {
            out.push(pieces[i].clone());
            proof {
                assert(views(out@) =~= before.push(pieces@[i as int]@));
                assert(head + names(now).push(pieces@[i as int]@) =~= before.push(
                    pieces@[i as int]@,
                ));
            }
        }
    }
    proof {
        assert(views(pieces@).take(pieces@.len() as int) =~= views(pieces@));
        assert(Seq::<Seq<char>>::empty() + names(split(p@, '/')) =~= names(split(p@, '/')));
    }
    out
}

/// Whether two lists of texts agree in their first `n` texts.
fn agree_up_to(a: &Vec<String>, b: &Vec<String>, n: usize) -> (out: bool)
    requires
        n <= a.len(),
        n <= b.len(),
    ensures
        out == (views(a@).take(n as int) == views(b@).take(n as int)),
{
    for i in 0..n
        invariant
            n <= a.len(),
            n <= b.len(),
            forall|j: int| 0 <= j < i ==> views(a@)[j] == views(b@)[j],
    {
        if !same(a[i].as_str(), b[i].as_str()) {
            proof {
                assert(views(a@).take(n as int)[i as int] != views(b@).take(n as int)[i as int]);
            }
            return false;
        }
    }
    proof {
        assert(views(a@).take(n as int) =~= views(b@).take(n as int));
    }
    true
}

/// Whether two paths are made of the same components.
pub fn is_same_path(p: &str, q: &str) -> (out: bool)
    ensures
        out == same_path(p@, q@),
{
    let left = components_of(p);
    let right = components_of(q);
    proof {
        assert(views(left@).take(left@.len() as int) =~= views(left@));
        assert(views(right@).take(right@.len() as int) =~= views(right@));
    }
    is_absolute(p) == is_absolute(q) && left.len() == right.len() && agree_up_to(
        &left,
        &right,
        left.len(),
    )
}

/// Whether `p` is `base` or lies below it.
pub fn is_within(p: &str, base: &str) -> (out: bool)
    ensures
        out == within(p@, base@),
{
    let whole = components_of(p);
    let front = components_of(base);
    proof {
        assert(views(front@).take(front@.len() as int) =~= views(front@));
    }
    (base.is_empty() || is_absolute(p) == is_absolute(base)) && front.len() <= whole.len()
        && agree_up_to(&whole, &front, front.len())
}

/// How many of the pieces name something.
fn count_names(pieces: &Vec<String>) -> (out: usize)
    ensures
        out == names(views(pieces@)).len(),
{
    let mut count: usize = 0;
    proof {
        assert(views(pieces@).take(0) =~= Seq::<Seq<char>>::empty());
    }
    for i in 0..pieces.len()
        invariant
            count <= i,
            count == names(views(pieces@).take(i as int)).len(),
    {
        proof {
            let next = views(pieces@).take(i + 1);
            assert(next.drop_last() =~= views(pieces@).take(i as int));
            assert(next.last() == pieces@[i as int]@);
        }
        if names_something(pieces[i].as_str()) {
            count = count + 1;
        }
    }
    proof {
        assert(views(pieces@).take(pieces@.len() as int) =~= views(pieces@));
    }
    count
}

/// Where the name stands that is behind the first `n` names.
fn find_after_names(pieces: &Vec<String>, n: usize) -> (out: usize)
    ensures
        out <= pieces.len(),
        views(pieces@).skip(out as int) == after_names(views(pieces@), n as nat),
{
    let mut left: usize = n;
    let mut i: usize = 0;
    proof {
        assert(views(pieces@).skip(0) =~= views(pieces@));
    }
    while i < pieces.len()
        invariant
            i <= pieces.len(),
            after_names(views(pieces@), n as nat) == after_names(
                views(pieces@).skip(i as int),
                left as nat,
            ),
        decreases pieces.len() - i,
    {
        proof {
            let rest = views(pieces@).skip(i as int);
            assert(rest[0] == pieces@[i as int]@);
            assert(rest.skip(1) =~= views(pieces@).skip(i + 1));
        }
        if names_something(pieces[i].as_str()) {
            if left == 0 {
                return i;
            }
            left = left - 1;
        }
        i = i + 1;
    }
    i
}

/// The pieces from `from` up to the last one that names something, as a path.
fn join_names(pieces: &Vec<String>, from: usize) -> (out: String)
    requires
        from <= pieces.len(),
    ensures
        out@ == join_with(up_to_last_name(views(pieces@).skip(from as int)), slash()),
{
    let rest = last_of(pieces, from);
    proof {
        assert(views(rest@).take(rest@.len() as int) =~= views(rest@));
        reveal_strlit("/");
        assert("/"@ =~= slash());
        last_name_is_an_index(views(rest@));
    }
    let kept: usize = match find_last_name(&rest, rest.len()) {
        Some(k) => k + 1,
        None => 0,
    };
    join_list(&first_of(&rest, kept), "/")
}

/// What is left of `p` behind `base`; nothing where `p` lies elsewhere.
pub fn strip_prefix(p: &str, base: &str) -> (out: Option<String>)
    ensures
        out matches Some(rest) ==> within(p@, base@) && rest@ == below(p@, base@),
        out is None ==> !within(p@, base@),
{
    if !is_within(p, base) {
        return None;
    }
    if base.is_empty() {
        let text = chars_of(p);
        let start: usize = lead_of(p);
        let mut out = text_between(&text, 0, start);
        let body = text_between(&text, start, text.len());
        proof {
            assert(out@ =~= p@.take(start as int));
            assert(body@ =~= p@.skip(start as int));
        }
        let pieces = split_on(body.as_str(), '/');
        proof {
            assert(views(pieces@).skip(0) =~= views(pieces@));
        }
        out.append(join_names(&pieces, 0).as_str());
        return Some(out);
    }
    let pieces = split_on(p, '/');
    let passed: usize = count_names(&split_on(base, '/'));
    let from: usize = find_after_names(&pieces, passed);
    Some(join_names(&pieces, from))
}

/// Where the last of the first `n` pieces stands that names something.
fn find_last_name(pieces: &Vec<String>, n: usize) -> (out: Option<usize>)
    requires
        n <= pieces.len(),
    ensures
        out matches Some(k) ==> k < n && last_name(views(pieces@).take(n as int)) == k,
        out is None ==> last_name(views(pieces@).take(n as int)) < 0,
{
    let mut i: usize = n;
    while i > 0
        invariant
            i <= n <= pieces.len(),
            last_name(views(pieces@).take(n as int)) == last_name(views(pieces@).take(i as int)),
        decreases i,
    {
        proof {
            let now = views(pieces@).take(i as int);
            assert(now.drop_last() =~= views(pieces@).take(i - 1));
            assert(now.last() == pieces@[i - 1]@);
        }
        if names_something(pieces[i - 1].as_str()) {
            return Some(i - 1);
        }
        i = i - 1;
    }
    None
}

fn first_of(pieces: &Vec<String>, n: usize) -> (out: Vec<String>)
    requires
        n <= pieces.len(),
    ensures
        views(out@) == views(pieces@).take(n as int),
{
    let mut out: Vec<String> = Vec::new();
    for i in 0..n
        invariant
            n <= pieces.len(),
            views(out@) == views(pieces@).take(i as int),
    {
        let ghost before = views(out@);
        out.push(pieces[i].clone());
        proof {
            assert(views(out@) =~= before.push(pieces@[i as int]@));
            assert(views(pieces@).take(i + 1) =~= before.push(pieces@[i as int]@));
        }
    }
    out
}

fn last_of(pieces: &Vec<String>, from: usize) -> (out: Vec<String>)
    requires
        from <= pieces.len(),
    ensures
        views(out@) == views(pieces@).skip(from as int),
{
    let mut out: Vec<String> = Vec::new();
    for i in from..pieces.len()
        invariant
            from <= pieces.len(),
            views(out@) == views(pieces@).subrange(from as int, i as int),
    {
        let ghost before = views(out@);
        out.push(pieces[i].clone());
        proof {
            assert(views(out@) =~= before.push(pieces@[i as int]@));
            assert(views(pieces@).subrange(from as int, i + 1) =~= before.push(
                pieces@[i as int]@,
            ));
        }
    }
    proof {
        assert(views(pieces@).subrange(from as int, pieces@.len() as int) =~= views(pieces@).skip(
            from as int,
        ));
    }
    out
}

/// Whether the path starts with the directory itself.
fn is_here(p: &str) -> (out: bool)
    ensures
        out == starts_here(p@),
        out ==> p@.len() > 0,
{
    let all = split_on(p, '/');
    proof {
        split_is_not_empty(p@, '/');
        assert(views(all@)[0] == all@[0]@);
        reveal_strlit(".");
        assert("."@ =~= dot());
        if starts_here(p@) {
            starting_dot_is_a_character(p@);
        }
    }
    same(all[0].as_str(), ".")
}

/// How many characters stand before the first separated piece.
fn lead_of(p: &str) -> (out: usize)
    ensures
        out == lead(p@),
        out <= p@.len(),
{
    if is_absolute(p) || is_here(p) {
        1
    } else {
        0
    }
}

/// The directory that holds the path; none above a root or an empty path.
pub fn parent_of(p: &str) -> (out: Option<String>)
    ensures
        crate::text::opt_view(out) == parent(p@),
{
    let text = chars_of(p);
    let here = is_here(p);
    let start: usize = lead_of(p);
    let head = text_between(&text, 0, start);
    let body = text_between(&text, start, text.len());
    proof {
        assert(head@ =~= p@.take(start as int));
        assert(body@ =~= p@.skip(start as int));
    }
    let pieces = split_on(body.as_str(), '/');
    proof {
        assert(views(pieces@).take(pieces@.len() as int) =~= views(pieces@));
        reveal_strlit("/");
        assert("/"@ =~= slash());
    }
    match find_last_name(&pieces, pieces.len()) {
        Some(last) => {
            let kept: usize = match find_last_name(&pieces, last) {
                Some(k) => k + 1,
                None => 0,
            };
            proof {
                last_name_is_an_index(views(pieces@).take(last as int));
            }
            let above = first_of(&pieces, kept);
            let mut out = head;
            out.append(join_list(&above, "/").as_str());
            Some(out)
        },
        None => {
            proof {
                last_name_is_an_index(views(pieces@));
            }
            if here {
                Some(String::new())
            } else {
                None
            }
        },
    }
}

proof fn last_name_is_an_index(pieces: Seq<Seq<char>>)
    ensures
        -1 <= last_name(pieces) < pieces.len(),
        last_name(pieces) >= 0 ==> is_name(pieces[last_name(pieces)]),
    decreases pieces.len(),
{
    if pieces.len() > 0 {
        last_name_is_an_index(pieces.drop_last());
    }
}

proof fn starting_dot_is_a_character(p: Seq<char>)
    requires
        starts_here(p),
    ensures
        p.len() > 0,
        p[0] == '.',
{
    first_piece_starts_text(p, '/');
    assert(p.take(1)[0] == p[0]);
}

/// A text begins with the first of its pieces.
pub proof fn first_piece_starts_text(s: Seq<char>, sep: char)
    ensures
        split(s, sep).len() >= 1,
        split(s, sep)[0].len() <= s.len(),
        s.take(split(s, sep)[0].len() as int) == split(s, sep)[0],
    decreases s.len(),
{
    if s.len() == 0 {
        assert(s.take(0) =~= split(s, sep)[0]);
    } else {
        let shorter = s.drop_last();
        let before = split(shorter, sep);
        first_piece_starts_text(shorter, sep);
        if s.last() != sep && before.len() == 1 {
            join_undoes_split(shorter, sep);
            assert(before[0] == shorter);
            assert(split(s, sep)[0] == shorter.push(s.last()));
            assert(s.take(s.len() as int) =~= shorter.push(s.last()));
        } else {
            assert(split(s, sep)[0] == before[0]);
            assert(s.take(before[0].len() as int) =~= shorter.take(before[0].len() as int));
        }
    }
}

/// The directory above a path has a shorter text.
pub proof fn parent_is_shorter(p: Seq<char>)
    ensures
        parent(p) matches Some(above) ==> above.len() < p.len(),
{
    if starts_here(p) {
        starting_dot_is_a_character(p);
    }
    let body = p.skip(lead(p));
    let pieces = split(body, '/');
    let last = last_name(pieces);
    last_name_is_an_index(pieces);
    join_undoes_split(body, '/');
    if last >= 0 {
        let front = pieces.take(last);
        let kept = last_name(front) + 1;
        last_name_is_an_index(front);
        let upto = pieces.take(last + 1);
        join_of_fewer_is_no_longer(pieces, slash(), last + 1);
        join_of_fewer_is_no_longer(front, slash(), kept);
        assert(front.take(kept) =~= pieces.take(kept));
        assert(upto.drop_last() =~= front);
        assert(upto.last() == pieces[last]);
    }
}

/// The last name of a path, where it ends in one.
pub fn file_name_of(p: &str) -> (out: Option<String>)
    ensures
        crate::text::opt_view(out) == file_name(p@),
{
    let parts = components_of(p);
    proof {
        reveal_strlit(".");
        reveal_strlit("..");
        assert("."@ =~= dot());
        assert(".."@ =~= dot_dot());
        if parts@.len() > 0 {
            assert(components(p@).last() == parts@[parts@.len() - 1]@);
        }
    }
    if parts.len() == 0 {
        return None;
    }
    let last = &parts[parts.len() - 1];
    if same(last.as_str(), ".") || same(last.as_str(), "..") {
        return None;
    }
    Some(last.clone())
}

/// The path with another last name; below the path where it ends in none.
pub fn with_file_name(p: &str, name: &str) -> (out: String)
    ensures
        out@ == renamed(p@, name@),
{
    match file_name_of(p) {
        Some(_) => match parent_of(p) {
            Some(dir) => join(dir.as_str(), name),
            None => join(p, name),
        },
        None => join(p, name),
    }
}

/// The path and every directory above it, from the path up.
pub fn ancestors_of(p: &str) -> (out: Vec<String>)
    ensures
        views(out@) == ancestors(p@),
    decreases p@.len(),
{
    proof {
        parent_is_shorter(p@);
    }
    let mut out: Vec<String> = Vec::new();
    out.push(owned(p));
    match parent_of(p) {
        Some(above) => {
            let mut rest = ancestors_of(above.as_str());
            let ghost tail = rest@;
            let ghost head = out@;
            out.append(&mut rest);
            proof {
                assert(views(out@) =~= seq![p@] + views(tail));
            }
        },
        None => {
            proof {
                assert(views(out@) =~= seq![p@]);
            }
        },
    }
    out
}

/// The names among two lists of pieces.
proof fn names_of_concat(a: Seq<Seq<char>>, b: Seq<Seq<char>>)
    ensures
        names(a + b) == names(a) + names(b),
    decreases b.len(),
{
    if b.len() == 0 {
        assert(a + b =~= a);
        assert(names(a) + names(b) =~= names(a));
    } else {
        assert((a + b).drop_last() =~= a + b.drop_last());
        names_of_concat(a, b.drop_last());
        if is_name(b.last()) {
            assert(names(a) + names(b.drop_last()).push(b.last()) =~= (names(a) + names(
                b.drop_last(),
            )).push(b.last()));
        }
    }
}

/// Where all pieces name something, all are names.
pub proof fn names_of_names(pieces: Seq<Seq<char>>)
    requires
        forall|i: int| 0 <= i < pieces.len() ==> is_name(#[trigger] pieces[i]),
    ensures
        names(pieces) == pieces,
    decreases pieces.len(),
{
    if pieces.len() > 0 {
        let front = pieces.drop_last();
        assert forall|i: int| 0 <= i < front.len() implies is_name(#[trigger] front[i]) by {
            assert(is_name(pieces[i]));
        }
        names_of_names(front);
        assert(is_name(pieces[pieces.len() - 1]));
        assert(front.push(pieces.last()) =~= pieces);
    } else {
        assert(names(pieces) =~= pieces);
    }
}

proof fn names_are_pieces(pieces: Seq<Seq<char>>)
    ensures
        forall|i: int|
            0 <= i < names(pieces).len() ==> is_name(#[trigger] names(pieces)[i])
                && pieces.contains(names(pieces)[i]),
    decreases pieces.len(),
{
    if pieces.len() > 0 {
        let front = pieces.drop_last();
        names_are_pieces(front);
        assert forall|i: int| 0 <= i < names(pieces).len() implies is_name(
            #[trigger] names(pieces)[i],
        ) && pieces.contains(names(pieces)[i]) by {
            if i < names(front).len() {
                assert(names(pieces)[i] == names(front)[i]);
                let j = choose|j: int| 0 <= j < front.len() && front[j] == names(front)[i];
                assert(pieces[j] == names(pieces)[i]);
            } else {
                assert(pieces[pieces.len() - 1] == names(pieces)[i]);
            }
        }
    }
}

/// A component names something or is the dot in front, and holds no separator.
pub proof fn components_are_names(p: Seq<char>)
    ensures
        forall|i: int|
            0 <= i < components(p).len() ==> (is_name(#[trigger] components(p)[i]) || (i == 0
                && components(p)[i] == dot())) && !components(p)[i].contains('/'),
{
    let pieces = split(p, '/');
    names_are_pieces(pieces);
    crate::text::split_pieces_hold_no_separator(p, '/');
    assert forall|i: int| 0 <= i < components(p).len() implies (is_name(
        #[trigger] components(p)[i],
    ) || (i == 0 && components(p)[i] == dot())) && !components(p)[i].contains('/') by {
        let shift: int = if starts_here(p) {
            1
        } else {
            0
        };
        if i >= shift {
            assert(components(p)[i] == names(pieces)[i - shift]);
            let j = choose|j: int|
                0 <= j < pieces.len() && pieces[j] == names(pieces)[i - shift];
            assert(!pieces[j].contains('/'));
        }
    }
}

proof fn nothing_has_no_names(p: Seq<char>)
    requires
        p.len() == 0,
    ensures
        names(split(p, '/')) == Seq::<Seq<char>>::empty(),
        components(p) == Seq::<Seq<char>>::empty(),
{
    let pieces = split(p, '/');
    let none = Seq::<Seq<char>>::empty();
    assert(pieces.drop_last() =~= none);
    assert(names(none) == none);
    assert(pieces.last().len() == 0);
    assert(pieces[0].len() == 0);
}

/// A relative path that starts with a name adds its components to those of the
/// directory that it is joined to.
pub proof fn components_of_joined(base: Seq<char>, rel: Seq<char>)
    requires
        !absolute(rel),
        !starts_here(rel),
    ensures
        components(joined(base, rel)) == components(base) + components(rel),
{
    let whole = joined(base, rel);
    if base.len() == 0 {
        assert(whole =~= rel);
        nothing_has_no_names(base);
        assert(components(base) + components(rel) =~= components(rel));
    } else if base.last() == '/' {
        let stem = base.drop_last();
        let none = Seq::<char>::empty();
        assert(base =~= stem + slash() + none);
        assert(whole =~= stem + slash() + rel);
        crate::text::split_of_concat(stem, none, '/');
        crate::text::split_of_concat(stem, rel, '/');
        split_is_not_empty(stem, '/');
        names_of_concat(split(stem, '/'), split(none, '/'));
        names_of_concat(split(stem, '/'), split(rel, '/'));
        nothing_has_no_names(none);
        assert(split(base, '/')[0] == split(stem, '/')[0]);
        assert(split(whole, '/')[0] == split(stem, '/')[0]);
        assert(components(whole) =~= components(base) + components(rel));
    } else {
        crate::text::split_of_concat(base, rel, '/');
        split_is_not_empty(base, '/');
        names_of_concat(split(base, '/'), split(rel, '/'));
        assert(split(whole, '/')[0] == split(base, '/')[0]);
        assert(components(whole) =~= components(base) + components(rel));
    }
}

/// Whether an absolute path is the root or ends in a name.
pub open spec fn ends_in_name(p: Seq<char>) -> bool {
    absolute(p) && (p.len() == 1 || is_name(split(p, '/').last()))
}

/// The directory that holds a name in an absolute directory is that directory.
pub proof fn parent_of_joined_name(base: Seq<char>, name: Seq<char>)
    requires
        ends_in_name(base),
        is_name(name),
        !name.contains('/'),
    ensures
        parent(joined(base, name)) == Some(base),
        ends_in_name(joined(base, name)),
{
    let whole = joined(base, name);
    assert(!absolute(name)) by {
        if absolute(name) {
            assert(name[0] == '/');
        }
    }
    let none = Seq::<char>::empty();
    assert(split(none, '/').len() == 1);
    assert(absolute(whole)) by {
        joined_is_absolute(base, name);
    }
    let body = whole.skip(1);
    assert(whole =~= none + slash() + body);
    crate::text::split_of_concat(none, body, '/');
    assert(split(whole, '/')[0].len() == 0);
    assert(!starts_here(whole));
    assert(lead(whole) == 1);
    assert(whole.take(1) =~= slash());
    let pieces = split(body, '/');
    if base.len() == 1 {
        assert(base =~= slash());
        assert(base.last() == '/');
        assert(body =~= name);
        crate::text::split_of_one_piece(name, '/');
        assert(pieces.take(0) =~= Seq::<Seq<char>>::empty());
        assert(last_name(pieces) == 0);
        assert(last_name(pieces.take(0)) == -1);
        assert(join_with(pieces.take(0), slash()) =~= none);
        assert(slash() + none =~= base);
        assert(split(whole, '/').last() == name);
    } else {
        let rest = base.skip(1);
        assert(base =~= none + slash() + rest);
        crate::text::split_of_concat(none, rest, '/');
        split_is_not_empty(rest, '/');
        let above = split(rest, '/');
        assert(split(base, '/').last() == above.last());
        assert(base.last() != '/') by {
            if base.last() == '/' {
                let stem = base.drop_last();
                assert(base =~= stem + slash() + none);
                crate::text::split_of_concat(stem, none, '/');
                assert(split(base, '/').last().len() == 0);
            }
        }
        assert(body =~= rest + slash() + name);
        crate::text::split_of_added_piece(rest, name, '/');
        assert(pieces == above.push(name));
        assert(pieces.take(above.len() as int) =~= above);
        assert(last_name(pieces) == above.len());
        assert(last_name(above) == above.len() - 1);
        join_undoes_split(rest, '/');
        assert(slash() + rest =~= base);
        assert(split(whole, '/').last() == name) by {
            assert(split(whole, '/') =~= split(none, '/') + pieces);
        }
    }
}

/// The directories above an absolute path that ends in a name end in names too.
pub proof fn ancestors_end_in_names(p: Seq<char>, i: int)
    requires
        ends_in_name(p),
        0 <= i < ancestors(p).len(),
    ensures
        ends_in_name(ancestors(p)[i]),
    decreases p.len(),
{
    if let Some(above) = parent(p) {
        parent_is_shorter(p);
        parent_ends_in_name(p);
        if i > 0 {
            assert(ancestors(p)[i] == ancestors(above)[i - 1]);
            ancestors_end_in_names(above, i - 1);
        }
    }
}

proof fn parent_ends_in_name(p: Seq<char>)
    requires
        ends_in_name(p),
    ensures
        parent(p) matches Some(above) ==> ends_in_name(above),
{
    let none = Seq::<char>::empty();
    let body = p.skip(1);
    assert(p =~= none + slash() + body);
    crate::text::split_of_concat(none, body, '/');
    assert(split(p, '/')[0].len() == 0);
    assert(lead(p) == 1);
    assert(p.take(1) =~= slash());
    let pieces = split(body, '/');
    let last = last_name(pieces);
    last_name_is_an_index(pieces);
    if last >= 0 {
        let front = pieces.take(last);
        let kept = last_name(front) + 1;
        last_name_is_an_index(front);
        let above = pieces.take(kept);
        let rest = join_with(above, slash());
        let whole = slash() + rest;
        assert(parent(p) == Some(whole));
        if kept == 0 {
            assert(above =~= Seq::<Seq<char>>::empty());
            assert(rest =~= none);
            assert(whole =~= slash());
        } else {
            crate::text::split_pieces_hold_no_separator(body, '/');
            assert forall|i: int| 0 <= i < above.len() implies !(#[trigger] above[i]).contains(
                '/',
            ) by {
                assert(!pieces[i].contains('/'));
            }
            crate::text::split_undoes_join(above, '/');
            assert(whole =~= none + slash() + rest);
            crate::text::split_of_concat(none, rest, '/');
            assert(split(whole, '/').last() == above.last());
            assert(above.last() == front[kept - 1]);
        }
    }
}

/// Every path lies within itself.
pub proof fn within_is_reflexive(p: Seq<char>)
    ensures
        within(p, p),
{
    assert(components(p).take(components(p).len() as int) =~= components(p));
}

/// Only the empty path is relative and has no components.
pub proof fn only_nothing_has_no_components(p: Seq<char>)
    requires
        !absolute(p),
        components(p).len() == 0,
    ensures
        p.len() == 0,
{
    if p.len() > 0 {
        let pieces = split(p, '/');
        first_piece_starts_text(p, '/');
        join_undoes_split(p, '/');
        assert(pieces[0].len() > 0) by {
            if pieces[0].len() == 0 {
                assert(pieces =~= seq![pieces[0]] + pieces.skip(1));
                if pieces.len() > 1 {
                    first_separator(pieces);
                }
            }
        }
        assert(is_name(pieces[0]));
        assert(pieces =~= seq![pieces[0]] + pieces.skip(1));
        names_of_concat(seq![pieces[0]], pieces.skip(1));
        assert(seq![pieces[0]].drop_last() =~= Seq::<Seq<char>>::empty());
        assert(names(seq![pieces[0]]).len() == 1);
    }
}

/// Where nothing stands before the first separator, the text starts with it.
proof fn first_separator(pieces: Seq<Seq<char>>)
    requires
        pieces.len() > 1,
        pieces[0].len() == 0,
    ensures
        join_with(pieces, slash()).len() > 0,
        join_with(pieces, slash())[0] == '/',
    decreases pieces.len(),
{
    let front = pieces.drop_last();
    if pieces.len() == 2 {
        assert(front =~= seq![pieces[0]]);
        assert(join_with(front, slash()) =~= Seq::<char>::empty());
    } else {
        first_separator(front);
    }
}

/// What lies within a directory lies within each directory around it.
pub proof fn within_is_transitive(p: Seq<char>, q: Seq<char>, r: Seq<char>)
    requires
        within(p, q),
        within(q, r),
    ensures
        within(p, r),
{
    let n = components(r).len() as int;
    assert(components(p).take(n) =~= components(p).take(components(q).len() as int).take(n));
    if q.len() == 0 {
        nothing_has_no_names(q);
        if r.len() > 0 {
            only_nothing_has_no_components(r);
        }
    }
}

/// Two directories within each other are the same.
pub proof fn within_is_antisymmetric(p: Seq<char>, q: Seq<char>)
    requires
        within(p, q),
        within(q, p),
    ensures
        same_path(p, q),
{
    assert(components(p).take(components(p).len() as int) =~= components(p));
}

proof fn names_behind_names(a: Seq<Seq<char>>, b: Seq<Seq<char>>)
    ensures
        after_names(a + b, names(a).len()) == after_names(b, 0),
    decreases a.len(),
{
    if a.len() == 0 {
        assert(a + b =~= b);
    } else {
        let first = seq![a[0]];
        let rest = a.skip(1);
        assert(a =~= first + rest);
        assert((a + b).skip(1) =~= rest + b);
        assert((a + b)[0] == a[0]);
        names_of_concat(first, rest);
        assert(first.drop_last() =~= Seq::<Seq<char>>::empty());
        assert(first.last() == a[0]);
        assert(names(Seq::<Seq<char>>::empty()).len() == 0);
        assert(names(first).len() == if is_name(a[0]) {
            1nat
        } else {
            0nat
        });
        names_behind_names(rest, b);
    }
}

/// What is joined to a directory is what is left behind the directory, where
/// it is made of names alone.
pub proof fn joined_is_below(base: Seq<char>, parts: Seq<Seq<char>>)
    requires
        base.len() > 0,
        parts.len() > 0,
        !absolute(join_with(parts, slash())),
        forall|i: int|
            0 <= i < parts.len() ==> is_name(#[trigger] parts[i]) && !parts[i].contains('/'),
    ensures
        below(joined(base, join_with(parts, slash())), base) == join_with(parts, slash()),
{
    let rel = join_with(parts, slash());
    let whole = joined(base, rel);
    crate::text::split_undoes_join(parts, '/');
    assert(is_name(parts[parts.len() - 1]));
    assert(is_name(parts[0]));
    assert(up_to_last_name(parts) =~= parts);
    if base.last() == '/' {
        let stem = base.drop_last();
        let none = Seq::<char>::empty();
        assert(base =~= stem + slash() + none);
        assert(whole =~= stem + slash() + rel);
        crate::text::split_of_concat(stem, none, '/');
        crate::text::split_of_concat(stem, rel, '/');
        names_of_concat(split(stem, '/'), split(none, '/'));
        nothing_has_no_names(none);
        names_behind_names(split(stem, '/'), parts);
    } else {
        crate::text::split_of_concat(base, rel, '/');
        names_behind_names(split(base, '/'), parts);
    }
}

/// A path joined to an absolute directory is absolute.
pub proof fn joined_is_absolute(base: Seq<char>, rel: Seq<char>)
    requires
        absolute(base),
    ensures
        absolute(joined(base, rel)),
{
    if !absolute(rel) {
        assert(joined(base, rel)[0] == base[0]);
    }
}

/// A path that is put together from names has those names as its components,
/// from the root on or from where it is seen.
pub proof fn paths_are_made_of_their_names(parts: Seq<Seq<char>>)
    requires
        parts.len() > 0,
        forall|i: int|
            0 <= i < parts.len() ==> is_name(#[trigger] parts[i]) && !parts[i].contains('/'),
    ensures
        components(join_with(parts, slash())) == parts,
        components(slash() + join_with(parts, slash())) == parts,
{
    let text = join_with(parts, slash());
    crate::text::split_undoes_join(parts, '/');
    names_of_names(parts);
    assert(is_name(parts[0]));
    let none = Seq::<char>::empty();
    crate::text::split_of_concat(none, text, '/');
    assert(none + slash() + text =~= slash() + text);
    assert(split(none, '/') =~= seq![none]);
    names_of_concat(split(none, '/'), parts);
    nothing_has_no_names(none);
    assert(split(slash() + text, '/')[0] == none);
    assert(components(slash() + text) =~= parts);
}

/// The last name of a path is the name that was put behind the last separator,
/// and giving the path another name puts that in its place.
pub proof fn last_names_are_those_put_last(base: Seq<char>, name: Seq<char>)
    requires
        is_name(name),
        name != dot_dot(),
        !name.contains('/'),
    ensures
        file_name(joined(base, name)) == Some(name),
        ends_in_name(base) ==> forall|other: Seq<char>| #[trigger]
            renamed(joined(base, name), other) == joined(base, other),
        ends_in_name(base) ==> ancestors(joined(base, name)) == seq![joined(base, name)]
            + ancestors(base),
{
    assert(!absolute(name)) by {
        if absolute(name) {
            assert(name[0] == '/');
        }
    }
    crate::text::split_of_one_piece(name, '/');
    names_of_names(seq![name]);
    components_of_joined(base, name);
    assert(components(joined(base, name)).last() == name);
    if ends_in_name(base) {
        parent_of_joined_name(base, name);
    }
}

/// What stands between two separators names something unless it is nothing or a
/// single dot; two dots are a name too, that of the directory above.
pub proof fn all_but_dots_are_names(piece: Seq<char>)
    ensures
        is_name(piece) <==> piece.len() > 0 && piece != "."@,
        is_name(".."@),
        dot() == "."@,
        dot_dot() == ".."@,
        slash() == "/"@,
{
    reveal_strlit(".");
    reveal_strlit("..");
    reveal_strlit("/");
    assert(dot() =~= "."@);
    assert(dot_dot() =~= ".."@);
    assert(slash() =~= "/"@);
    assert(".."@.len() == 2);
}

/// A separator that is repeated and a dot between two separators name nothing.
pub proof fn repeated_separators_name_nothing(front: Seq<char>, back: Seq<char>)
    requires
        front.len() > 0,
    ensures
        components(front + seq!['/', '/'] + back) == components(front + seq!['/'] + back),
        components(front + seq!['/', '.', '/'] + back) == components(front + seq!['/'] + back),
{
    let none = Seq::<char>::empty();
    let short = front + seq!['/'] + back;
    let twice = front + seq!['/', '/'] + back;
    let dotted = front + seq!['/', '.', '/'] + back;
    split_is_not_empty(front, '/');
    crate::text::split_of_concat(front, back, '/');
    names_of_concat(split(front, '/'), split(back, '/'));
    crate::text::split_of_concat(none, back, '/');
    crate::text::split_of_concat(front, none + seq!['/'] + back, '/');
    assert(twice =~= front + seq!['/'] + (none + seq!['/'] + back));
    assert(split(none, '/') =~= seq![none]);
    names_of_concat(split(none, '/'), split(back, '/'));
    names_of_concat(split(front, '/'), split(none, '/') + split(back, '/'));
    nothing_has_no_names(none);
    assert(names(split(none, '/')) + names(split(back, '/')) =~= names(split(back, '/')));
    crate::text::split_of_concat(dot(), back, '/');
    crate::text::split_of_concat(front, dot() + seq!['/'] + back, '/');
    assert(dotted =~= front + seq!['/'] + (dot() + seq!['/'] + back));
    assert(!dot().contains('/')) by {
        assert(dot()[0] == '.');
    }
    crate::text::split_of_one_piece(dot(), '/');
    names_of_concat(split(dot(), '/'), split(back, '/'));
    names_of_concat(split(front, '/'), split(dot(), '/') + split(back, '/'));
    assert(seq![dot()].drop_last() =~= Seq::<Seq<char>>::empty());
    assert(names(seq![dot()].drop_last()) =~= Seq::<Seq<char>>::empty());
    assert(names(split(dot(), '/')) =~= Seq::<Seq<char>>::empty());
    assert(names(split(dot(), '/')) + names(split(back, '/')) =~= names(split(back, '/')));
    assert(split(twice, '/')[0] == split(front, '/')[0]);
    assert(split(dotted, '/')[0] == split(front, '/')[0]);
    assert(split(short, '/')[0] == split(front, '/')[0]);
}

} // verus!
