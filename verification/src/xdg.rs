//! Where the files of the user are kept.

use vstd::prelude::*;

use crate::path::{join, joined};
use crate::text::{join_with, opt_str_view, owned};
use crate::tilde::{expand_tilde, expands_to};

verus! {

/// Where the configuration is kept unless the environment says otherwise.
pub const CONFIG_FALLBACK_BASE: &'static str = "~/.config";

/// Where logs are kept unless the environment says otherwise.
pub const STATE_FALLBACK_BASE: &'static str = "~/.local/state";

/// Where the socket is kept unless the environment says otherwise.
pub const CACHE_FALLBACK_BASE: &'static str = "~/.cache";

/// The directory of the library below each of these.
pub const APP_DIR: &'static str = "hallouminate";

/// The texts of a list.
pub open spec fn segment_views(segments: Seq<&str>) -> Seq<Seq<char>> {
    Seq::new(segments.len(), |i: int| segments[i]@)
}

/// The path with each of the segments joined to it in turn.
pub open spec fn joined_all(base: Seq<char>, segments: Seq<Seq<char>>) -> Seq<char>
    decreases segments.len(),
{
    if segments.len() == 0 {
        base
    } else {
        joined(joined_all(base, segments.drop_last()), segments.last())
    }
}

/// Whether the environment says where.
pub open spec fn is_set(env_value: Option<Seq<char>>) -> bool {
    env_value matches Some(v) && v.len() > 0
}

/// Whether `base` is where the environment says, or the fallback with the home
/// directory filled in.
pub open spec fn is_base(env_value: Option<Seq<char>>, fallback: Seq<char>, base: Seq<char>) -> bool {
    if is_set(env_value) {
        env_value == Some(base)
    } else {
        expands_to(fallback, base)
    }
}

/// The path with each of the segments joined to it in turn.
pub fn join_all(base: &str, segments: &[&str]) -> (out: String)
    ensures
        out@ == joined_all(base@, segment_views(segments@)),
{
    let mut out = owned(base);
    let ghost all = segment_views(segments@);
    for i in 0..segments.len()
        invariant
            all == segment_views(segments@),
            out@ == joined_all(base@, all.take(i as int)),
    {
        proof {
            assert(all.take(i + 1).drop_last() =~= all.take(i as int));
            assert(all.take(i + 1).last() == segments@[i as int]@);
        }
        out = join(out.as_str(), segments[i]);
    }
    proof {
        assert(all.take(all.len() as int) =~= all);
    }
    out
}

/// Where the environment says, or the fallback with the home directory filled
/// in.  An empty value says nothing.
pub fn base_dir(env_value: Option<&str>, fallback: &str) -> (out: String)
    ensures
        is_base(opt_str_view(env_value), fallback@, out@),
{
    match env_value {
        Some(v) => {
            if !v.is_empty() {
                return owned(v);
            }
        },
        None => {},
    }
    expand_tilde(fallback)
}

/// A path below the directory that the environment names, or below the
/// fallback where it names none.
pub fn xdg_path_from(env_value: Option<&str>, fallback_base: &str, subpath: &[&str]) -> (out:
    String)
    ensures
        exists|base: Seq<char>|
            is_base(opt_str_view(env_value), fallback_base@, base) && out@ == #[trigger] joined_all(
                base,
                segment_views(subpath@),
            ),
{
    let base = base_dir(env_value, fallback_base);
    let out = join_all(base.as_str(), subpath);
    proof {
        assert(out@ == joined_all(base@, segment_views(subpath@)));
    }
    out
}

/// Where the configuration of the user is kept; `base` is the directory that
/// holds configurations.
pub open spec fn config_file_below(base: Seq<char>) -> Seq<char> {
    joined(joined(base, APP_DIR@), "config.toml"@)
}

/// Where the configuration of the user is kept.
pub fn xdg_config_path_from(xdg_config_home: Option<&str>) -> (out: String)
    ensures
        exists|base: Seq<char>|
            is_base(opt_str_view(xdg_config_home), CONFIG_FALLBACK_BASE@, base) && out@
                == #[trigger] config_file_below(base),
{
    let base = base_dir(xdg_config_home, CONFIG_FALLBACK_BASE);
    let out = join(join(base.as_str(), APP_DIR).as_str(), "config.toml");
    proof {
        assert(out@ == config_file_below(base@));
    }
    out
}

/// Where logs are kept; `base` is the directory that holds the state of
/// programs.
pub open spec fn state_dir_below(base: Seq<char>) -> Seq<char> {
    joined(base, APP_DIR@)
}

/// Where logs are kept.
pub fn state_dir_from(xdg_state_home: Option<&str>) -> (out: String)
    ensures
        exists|base: Seq<char>|
            is_base(opt_str_view(xdg_state_home), STATE_FALLBACK_BASE@, base) && out@
                == #[trigger] state_dir_below(base),
{
    let base = base_dir(xdg_state_home, STATE_FALLBACK_BASE);
    let out = join(base.as_str(), APP_DIR);
    proof {
        assert(out@ == state_dir_below(base@));
    }
    out
}

/// The socket below the directory that holds it.
pub open spec fn socket_below(base: Seq<char>) -> Seq<char> {
    joined(joined(base, APP_DIR@), "daemon.sock"@)
}

/// Where the socket of the daemon is: where the caller says, else below the
/// runtime directory, else below the cache.
pub fn daemon_socket_path_from(socket: Option<&str>, xdg_runtime_dir: Option<&str>) -> (out: String)
    ensures
        is_set(opt_str_view(socket)) ==> Some(out@) == opt_str_view(socket),
        !is_set(opt_str_view(socket)) ==> exists|base: Seq<char>|
            is_base(opt_str_view(xdg_runtime_dir), CACHE_FALLBACK_BASE@, base) && out@
                == #[trigger] socket_below(base),
{
    match socket {
        Some(path) => {
            if !path.is_empty() {
                return owned(path);
            }
        },
        None => {},
    }
    let base = base_dir(xdg_runtime_dir, CACHE_FALLBACK_BASE);
    let out = join(join(base.as_str(), APP_DIR).as_str(), "daemon.sock");
    proof {
        assert(out@ == socket_below(base@));
    }
    out
}

/// The segments follow the base, each behind a separator, in their order.
pub proof fn segments_follow_the_base(base: Seq<char>, segments: Seq<Seq<char>>)
    requires
        base.len() > 0,
        base.last() != '/',
        forall|i: int|
            0 <= i < segments.len() ==> (#[trigger] segments[i]).len() > 0 && segments[i][0] != '/'
                && segments[i].last() != '/',
    ensures
        segments.len() == 0 ==> joined_all(base, segments) == base,
        segments.len() > 0 ==> joined_all(base, segments) == base + seq!['/'] + join_with(
            segments,
            seq!['/'],
        ),
        joined_all(base, segments).len() > 0,
        joined_all(base, segments).last() != '/',
    decreases segments.len(),
{
    if segments.len() > 0 {
        let front = segments.drop_last();
        assert forall|i: int| 0 <= i < front.len() implies (#[trigger] front[i]).len() > 0
            && front[i][0] != '/' && front[i].last() != '/' by {
            assert(front[i] == segments[i]);
        }
        segments_follow_the_base(base, front);
        let last = segments[segments.len() - 1];
        assert(last.len() > 0 && last[0] != '/' && last.last() != '/');
        let whole = joined_all(base, segments);
        assert(whole == joined_all(base, front) + seq!['/'] + last);
        assert(whole =~= base + seq!['/'] + join_with(segments, seq!['/']));
    }
}

/// The files of the user are in a directory of their own below the directory that
/// the environment names.
pub proof fn files_are_below_their_base(base: Seq<char>)
    requires
        base.len() > 0,
        base.last() != '/',
    ensures
        config_file_below(base) == base + "/hallouminate/config.toml"@,
        state_dir_below(base) == base + "/hallouminate"@,
        socket_below(base) == base + "/hallouminate/daemon.sock"@,
{
    reveal_strlit("hallouminate");
    reveal_strlit("config.toml");
    reveal_strlit("daemon.sock");
    reveal_strlit("/hallouminate/config.toml");
    reveal_strlit("/hallouminate/daemon.sock");
    reveal_strlit("/hallouminate");
    assert(config_file_below(base) =~= base + "/hallouminate/config.toml"@);
    assert(state_dir_below(base) =~= base + "/hallouminate"@);
    assert(socket_below(base) =~= base + "/hallouminate/daemon.sock"@);
}

/// Where the environment names a directory, that is taken, and where it names
/// none, or nothing, the fallback with the home directory filled in.
pub proof fn the_environment_comes_first(
    named: Seq<char>,
    fallback: Seq<char>,
    base: Seq<char>,
)
    ensures
        named.len() > 0 ==> (is_base(Some(named), fallback, base) <==> base == named),
        is_base(None, fallback, base) <==> expands_to(fallback, base),
        is_base(Some(Seq::empty()), fallback, base) <==> expands_to(fallback, base),
{
}

/// The texts of the segments are in the order of the segments.
pub proof fn segments_are_in_their_place(segments: Seq<&str>, i: int)
    requires
        0 <= i < segments.len(),
    ensures
        segment_views(segments).len() == segments.len(),
        segment_views(segments)[i] == segments[i]@,
{
}

} // verus!
