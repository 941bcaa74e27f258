//! Where the daemon listens.

use vstd::prelude::*;
use vstd::string::StringExecFns;

use crate::text::{
    cat2, chars_of, decimal, decimal_is_digits, decimal_tells_numbers_apart, decimal_text, is_digit,
    owned,
};

verus! {

/// Where the daemon listens.
#[derive(Debug, Clone)]
pub struct Endpoint {
    pub path: String,
}

/// The endpoint of the daemon at the given socket.
pub fn daemon_endpoint(socket_path: &str) -> (out: Endpoint)
    ensures
        out.path@ == socket_path@,
{
    Endpoint { path: owned(socket_path) }
}

/// What a pipe's name begins with.
pub const PIPE_PREFIX: &'static str = "\\\\.\\pipe\\hallouminate-";

/// Whether the character is a letter or a digit of ASCII.
pub open spec fn is_alphanumeric(c: char) -> bool {
    ||| 'a' <= c && c <= 'z'
    ||| 'A' <= c && c <= 'Z'
    ||| '0' <= c && c <= '9'
}

/// What stands for a character in a pipe's name: a letter or a digit for itself,
/// and any other character as its code between underscores.
pub open spec fn pipe_piece(c: char) -> Seq<char> {
    if is_alphanumeric(c) {
        seq![c]
    } else {
        seq!['_'] + decimal(c as u32 as nat) + seq!['_']
    }
}

/// The name of the pipe that stands for a socket.
pub open spec fn pipe_leaf(socket_path: Seq<char>) -> Seq<char>
    decreases socket_path.len(),
{
    if socket_path.len() == 0 {
        Seq::empty()
    } else {
        pipe_piece(socket_path[0]) + pipe_leaf(socket_path.skip(1))
    }
}

/// The name of the pipe that stands for a socket where there are no sockets.  It
/// is made of the whole path, so that different sockets have different pipes,
/// and after its prefix it holds letters, digits and underscores only.
pub fn pipe_path(socket_path: &str) -> (out: String)
    ensures
        out@ == PIPE_PREFIX@ + pipe_leaf(socket_path@),
{
    let text = chars_of(socket_path);
    let mut leaf = String::new();
    proof {
        assert(socket_path@.skip(0) =~= socket_path@);
        assert(leaf@ + pipe_leaf(socket_path@) =~= pipe_leaf(socket_path@));
    }
    for i in 0..text.len()
        invariant
            text@ == socket_path@,
            pipe_leaf(socket_path@) == leaf@ + pipe_leaf(socket_path@.skip(i as int)),
    {
        let c = text[i];
        let ghost before = leaf@;
        let ghost rest = socket_path@.skip(i as int);
        if ('a' <= c && c <= 'z') || ('A' <= c && c <= 'Z') || ('0' <= c && c <= '9') {
            leaf.push(c);
        } else {
            let code = decimal_text(c as u32 as u64);
            leaf.push('_');
            leaf.append(code.as_str());
            leaf.push('_');
        }
        proof {
            assert(rest[0] == c);
            assert(rest.skip(1) =~= socket_path@.skip(i + 1));
            assert(leaf@ =~= before + pipe_piece(c));
            assert(before + (pipe_piece(c) + pipe_leaf(rest.skip(1))) =~= leaf@ + pipe_leaf(
                rest.skip(1),
            ));
        }
    }
    proof {
        assert(socket_path@.skip(text@.len() as int) =~= Seq::<char>::empty());
        assert(leaf@ + pipe_leaf(Seq::<char>::empty()) =~= leaf@);
    }
    cat2(PIPE_PREFIX, leaf.as_str())
}

/// Whether the character may stand in a pipe's name.
pub open spec fn is_pipe_char(c: char) -> bool {
    is_alphanumeric(c) || c == '_'
}

/// The name of a pipe holds letters, digits and underscores only.
pub proof fn pipe_names_are_plain(socket_path: Seq<char>)
    ensures
        forall|i: int|
            0 <= i < pipe_leaf(socket_path).len() ==> is_pipe_char(
                #[trigger] pipe_leaf(socket_path)[i],
            ),
    decreases socket_path.len(),
{
    if socket_path.len() > 0 {
        let piece = pipe_piece(socket_path[0]);
        let rest = pipe_leaf(socket_path.skip(1));
        pipe_names_are_plain(socket_path.skip(1));
        decimal_is_digits(socket_path[0] as u32 as nat);
        assert forall|i: int| 0 <= i < pipe_leaf(socket_path).len() implies is_pipe_char(
            #[trigger] pipe_leaf(socket_path)[i],
        ) by {
            if i < piece.len() {
                assert(pipe_leaf(socket_path)[i] == piece[i]);
                if !is_alphanumeric(socket_path[0]) && 0 < i < piece.len() - 1 {
                    assert(is_digit(decimal(socket_path[0] as u32 as nat)[i - 1]));
                    assert(piece[i] == decimal(socket_path[0] as u32 as nat)[i - 1]);
                }
            } else {
                assert(pipe_leaf(socket_path)[i] == rest[i - piece.len()]);
            }
        }
    }
}

/// Two codes that start two names alike are the same.
proof fn codes_start_alike(a: Seq<char>, b: Seq<char>, p: Seq<char>, q: Seq<char>)
    requires
        forall|i: int| 0 <= i < a.len() ==> #[trigger] a[i] != '_',
        forall|i: int| 0 <= i < b.len() ==> #[trigger] b[i] != '_',
        seq!['_'] + a + seq!['_'] + p == seq!['_'] + b + seq!['_'] + q,
    ensures
        a == b,
        p == q,
{
    let x = seq!['_'] + a + seq!['_'] + p;
    let y = seq!['_'] + b + seq!['_'] + q;
    assert(x[a.len() as int + 1] == '_');
    assert(y[b.len() as int + 1] == '_');
    if a.len() < b.len() {
        assert(y[a.len() as int + 1] == b[a.len() as int]);
    } else if b.len() < a.len() {
        assert(x[b.len() as int + 1] == a[b.len() as int]);
    }
    assert forall|i: int| 0 <= i < a.len() implies a[i] == b[i] by {
        assert(x[i + 1] == a[i]);
        assert(y[i + 1] == b[i]);
    }
    assert(a =~= b);
    assert(x.skip(a.len() as int + 2) =~= p);
    assert(y.skip(b.len() as int + 2) =~= q);
}

proof fn leaves_tell_paths_apart(a: Seq<char>, b: Seq<char>)
    requires
        pipe_leaf(a) == pipe_leaf(b),
    ensures
        a == b,
    decreases a.len(),
{
    if a.len() > 0 {
        decimal_is_digits(a[0] as u32 as nat);
    }
    if b.len() > 0 {
        decimal_is_digits(b[0] as u32 as nat);
    }
    if a.len() == 0 {
        if b.len() > 0 {
            assert(pipe_leaf(b).len() >= pipe_piece(b[0]).len() > 0);
        }
        assert(a =~= b);
    } else if b.len() == 0 {
        assert(pipe_leaf(a).len() >= pipe_piece(a[0]).len() > 0);
    } else {
        let p = pipe_leaf(a.skip(1));
        let q = pipe_leaf(b.skip(1));
        assert(pipe_leaf(a)[0] == pipe_piece(a[0])[0]);
        assert(pipe_leaf(b)[0] == pipe_piece(b[0])[0]);
        if is_alphanumeric(a[0]) {
            assert(is_alphanumeric(b[0]));
            assert(pipe_leaf(a).skip(1) =~= p);
            assert(pipe_leaf(b).skip(1) =~= q);
        } else {
            assert(!is_alphanumeric(b[0]));
            let x = decimal(a[0] as u32 as nat);
            let y = decimal(b[0] as u32 as nat);
            assert forall|i: int| 0 <= i < x.len() implies #[trigger] x[i] != '_' by {
                assert(is_digit(x[i]));
            }
            assert forall|i: int| 0 <= i < y.len() implies #[trigger] y[i] != '_' by {
                assert(is_digit(y[i]));
            }
            codes_start_alike(x, y, p, q);
            decimal_tells_numbers_apart(a[0] as u32 as nat, b[0] as u32 as nat);
            vstd::utf8::char_u32_cast(a[0], a[0] as u32);
            vstd::utf8::char_u32_cast(b[0], b[0] as u32);
        }
        assert(a[0] == b[0]);
        leaves_tell_paths_apart(a.skip(1), b.skip(1));
        assert(a =~= seq![a[0]] + a.skip(1));
        assert(b =~= seq![b[0]] + b.skip(1));
    }
}

/// Different sockets have different pipes.
pub proof fn pipes_are_not_shared(a: Seq<char>, b: Seq<char>)
    requires
        PIPE_PREFIX@ + pipe_leaf(a) == PIPE_PREFIX@ + pipe_leaf(b),
    ensures
        a == b,
{
    let n = PIPE_PREFIX@.len() as int;
    assert((PIPE_PREFIX@ + pipe_leaf(a)).skip(n) =~= pipe_leaf(a));
    assert((PIPE_PREFIX@ + pipe_leaf(b)).skip(n) =~= pipe_leaf(b));
    leaves_tell_paths_apart(a, b);
}

/// The file whose lock keeps a second daemon from the same socket.
pub open spec fn lock_path(socket_path: Seq<char>) -> Seq<char> {
    socket_path + ".lock"@
}

/// The file whose lock keeps a second daemon from the same socket.
pub fn lock_path_for(socket_path: &str) -> (out: String)
    ensures
        out@ == lock_path(socket_path@),
{
    cat2(socket_path, ".lock")
}

/// Each socket has a lock of its own.
pub proof fn locks_are_not_shared(a: Seq<char>, b: Seq<char>)
    requires
        lock_path(a) == lock_path(b),
    ensures
        a == b,
{
    assert(lock_path(a).len() == a.len() + ".lock"@.len());
    assert(lock_path(b).len() == b.len() + ".lock"@.len());
    assert(lock_path(a).take(a.len() as int) =~= a);
    assert(lock_path(b).take(b.len() as int) =~= b);
}

/// In the name of a pipe a letter or a digit stands for itself, and any other
/// character is written as its number between underscores.
pub proof fn characters_are_written_plainly_or_as_numbers(c: char, path: Seq<char>)
    ensures
        ('a' <= c && c <= 'z') || ('A' <= c && c <= 'Z') || ('0' <= c && c <= '9') ==> pipe_leaf(
            seq![c] + path,
        ) == seq![c] + pipe_leaf(path),
        !(('a' <= c && c <= 'z') || ('A' <= c && c <= 'Z') || ('0' <= c && c <= '9')) ==> pipe_leaf(
            seq![c] + path,
        ) == seq!['_'] + decimal(c as nat) + seq!['_'] + pipe_leaf(path),
        pipe_leaf(Seq::empty()).len() == 0,
{
    let whole = seq![c] + path;
    assert(whole[0] == c);
    assert(whole.skip(1) =~= path);
}

} // verus!
