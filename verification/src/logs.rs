//! The log files of a process: how large they grow, and how many are kept.
//!
//! The file that is written to is `hallouminate.log`.  A full one becomes the
//! archive `hallouminate.log.1`, the archive before it `hallouminate.log.2`, and
//! so on.

use vstd::prelude::*;

use crate::config::LoggingConfig;
use crate::path::{join, joined};
use crate::text::{
    cat3, decimal, decimal_tells_numbers_apart, decimal_text, opt_str_view, owned, parse_decimal,
    read_decimal,
};

verus! {

/// The name of the file that is written to.
pub const LOG_FILENAME: &'static str = "hallouminate.log";

/// Which records are written unless the environment says otherwise.
pub const DEFAULT_FILTER: &'static str = "hallouminate=info";

/// The limit that holds: the one of the environment, where it is a number, and
/// the configured one otherwise.
pub open spec fn limit(from_env: Option<Seq<char>>, configured: u64) -> u64 {
    match from_env {
        Some(text) => match read_decimal(text) {
            Some(n) => if n <= u64::MAX {
                n as u64
            } else {
                configured
            },
            None => configured,
        },
        None => configured,
    }
}

/// The limit that holds: the one of the environment, where it is a number, and
/// the configured one otherwise.
pub fn limit_from(from_env: Option<&str>, configured: u64) -> (out: u64)
    ensures
        out == limit(opt_str_view(from_env), configured),
{
    match from_env {
        Some(text) => match parse_decimal(text) {
            Some(n) => n,
            None => configured,
        },
        None => configured,
    }
}

/// The limits that hold for a process, from its configuration and its
/// environment.
pub fn limits_from(
    configured: &LoggingConfig,
    max_file_bytes: Option<&str>,
    max_total_bytes: Option<&str>,
) -> (out: LoggingConfig)
    ensures
        out == (LoggingConfig {
            max_file_bytes: limit(
                opt_str_view(max_file_bytes),
                configured.max_file_bytes,
            ),
            max_total_bytes: limit(
                opt_str_view(max_total_bytes),
                configured.max_total_bytes,
            ),
        }),
{
    LoggingConfig {
        max_file_bytes: limit_from(max_file_bytes, configured.max_file_bytes),
        max_total_bytes: limit_from(max_total_bytes, configured.max_total_bytes),
    }
}

/// What is done with bytes that wait to be written.
#[derive(Debug, Clone, Copy, PartialEq, Eq, Structural)]
pub enum LogStep {
    /// That many of them are written.
    Append(u64),
    /// The file is full: it becomes an archive.
    Rotate,
}

/// What is done with `pending` bytes where the file holds `size`: it is filled
/// to its limit and then becomes an archive.  A file that may hold nothing holds
/// one byte.
pub open spec fn log_step(size: u64, pending: u64, limits: LoggingConfig) -> LogStep {
    let most = file_limit(limits);
    if size >= most {
        LogStep::Rotate
    } else if pending <= most - size {
        LogStep::Append(pending)
    } else {
        LogStep::Append((most - size) as u64)
    }
}

/// How large a file grows.
pub open spec fn file_limit(limits: LoggingConfig) -> u64 {
    if limits.max_file_bytes == 0 {
        1
    } else {
        limits.max_file_bytes
    }
}

/// What is done with `pending` bytes where the file holds `size`.
pub fn next_log_step(size: u64, pending: u64, limits: &LoggingConfig) -> (out: LogStep)
    ensures
        out == log_step(size, pending, *limits),
{
    let most: u64 = if limits.max_file_bytes == 0 {
        1
    } else {
        limits.max_file_bytes
    };
    if size >= most {
        LogStep::Rotate
    } else if pending <= most - size {
        LogStep::Append(pending)
    } else {
        LogStep::Append(most - size)
    }
}

/// A file becomes an archive exactly when it has reached its limit, and never
/// grows beyond it; where it does not become one, bytes are written as long as
/// any wait.
pub proof fn files_are_full_when_they_rotate(size: u64, pending: u64, limits: LoggingConfig)
    requires
        size <= file_limit(limits),
    ensures
        log_step(size, pending, limits) is Rotate <==> size == file_limit(limits),
        log_step(size, pending, limits) matches LogStep::Append(n) ==> n <= pending && size + n
            <= file_limit(limits) && (pending > 0 ==> n > 0) && (n < pending ==> size + n
            == file_limit(limits)),
{
}

/// The sum of the sizes of the newest `n` archives.
pub open spec fn total(sizes: Seq<u64>, n: int) -> int
    decreases n,
{
    if n <= 0 {
        0
    } else {
        total(sizes, n - 1) + sizes[n - 1]
    }
}

/// How much the archives hold together at most: what the file that is written
/// to does not need.
pub open spec fn archive_room(limits: LoggingConfig) -> int {
    if limits.max_total_bytes > file_limit(limits) {
        limits.max_total_bytes - file_limit(limits)
    } else {
        0
    }
}

/// How many of the archives are kept, the newest first: as many as there is
/// room for.
pub fn archives_kept(sizes: &Vec<u64>, limits: &LoggingConfig) -> (out: usize)
    ensures
        out <= sizes@.len(),
        total(sizes@, out as int) <= archive_room(*limits),
        out < sizes@.len() ==> total(sizes@, out + 1) > archive_room(*limits),
{
    let most: u64 = if limits.max_file_bytes == 0 {
        1
    } else {
        limits.max_file_bytes
    };
    let room: u64 = if limits.max_total_bytes > most {
        limits.max_total_bytes - most
    } else {
        0
    };
    let mut left: u64 = room;
    for i in 0..sizes.len()
        invariant
            room == archive_room(*limits),
            left <= room,
            total(sizes@, i as int) == room - left,
    {
        if sizes[i] > left {
            return i;
        }
        left = left - sizes[i];
    }
    sizes.len()
}

/// All log files together stay within their limit: the archives that are kept
/// leave room for the file that is written to.
pub proof fn logs_stay_within_their_limit(sizes: Seq<u64>, kept: int, size: u64, limits: LoggingConfig)
    requires
        file_limit(limits) <= limits.max_total_bytes,
        total(sizes, kept) <= archive_room(limits),
        size <= file_limit(limits),
    ensures
        total(sizes, kept) + size <= limits.max_total_bytes,
{
}

/// The text of an archive's path.
pub open spec fn archive(log: Seq<char>, number: nat) -> Seq<char> {
    log + "."@ + decimal(number)
}

/// Where the archive with the number is.
pub fn archive_path(log: &str, number: u64) -> (out: String)
    ensures
        out@ == archive(log@, number as nat),
{
    let text = decimal_text(number);
    cat3(log, ".", text.as_str())
}

/// Where the file that is written to is.
pub fn log_path(state_dir: &str) -> (out: String)
    ensures
        out@ == joined(state_dir@, LOG_FILENAME@),
{
    join(state_dir, LOG_FILENAME)
}

/// A file that gets another name.
#[derive(Debug, PartialEq, Eq)]
pub struct Renaming {
    pub from: String,
    pub to: String,
}

/// Whether the renaming makes an archive of the file with the number below;
/// number zero is the file that is written to.
pub open spec fn is_renaming(one: Renaming, log: Seq<char>, number: nat) -> bool {
    &&& one.to@ == archive(log, number + 1)
    &&& one.from@ == if number == 0 {
        log
    } else {
        archive(log, number)
    }
}

/// The renamings that make an archive of a full file, in their order, where
/// there are `archives` archives: the oldest gives way first.
pub fn renamings(log: &str, archives: u64) -> (out: Vec<Renaming>)
    requires
        archives < u64::MAX,
    ensures
        out@.len() == archives + 1,
        forall|i: int|
            0 <= i <= archives ==> is_renaming(#[trigger] out@[i], log@, (archives - i) as nat),
{
    let mut out: Vec<Renaming> = Vec::new();
    let mut number: u64 = archives;
    while number > 0
        invariant
            number <= archives < u64::MAX,
            out@.len() == archives - number,
            forall|i: int|
                0 <= i < out@.len() ==> is_renaming(
                    #[trigger] out@[i],
                    log@,
                    (archives - i) as nat,
                ),
        decreases number,
    {
        out.push(Renaming { from: archive_path(log, number), to: archive_path(log, number + 1) });
        number = number - 1;
    }
    out.push(Renaming { from: owned(log), to: archive_path(log, 1) });
    out
}

/// No renaming takes the name of a file that has yet to be renamed, so that no
/// archive is lost.
pub proof fn renamings_lose_nothing(
    log: Seq<char>,
    archives: nat,
    list: Seq<Renaming>,
    i: int,
    j: int,
)
    requires
        list.len() == archives + 1,
        forall|k: int|
            0 <= k <= archives ==> is_renaming(#[trigger] list[k], log, (archives - k) as nat),
        0 <= i < j <= archives,
    ensures
        list[i].to@ != list[j].from@,
{
    reveal_strlit(".");
    let a = (archives - i + 1) as nat;
    let b = (archives - j) as nat;
    assert(is_renaming(list[i], log, (archives - i) as nat));
    assert(is_renaming(list[j], log, b));
    if b == 0 {
        assert(archive(log, a).len() > log.len());
    } else if archive(log, a) == archive(log, b) {
        let n = log.len() + 1;
        assert(archive(log, a).skip(n as int) =~= decimal(a));
        assert(archive(log, b).skip(n as int) =~= decimal(b));
        decimal_tells_numbers_apart(a, b);
    }
}

/// A limit that the environment gives as a number holds, up to the largest that
/// can be kept; what is no number leaves the configured one.
pub proof fn limits_are_taken_from_the_environment(n: nat, text: Seq<char>, configured: u64)
    ensures
        n <= u64::MAX ==> limit(Some(decimal(n)), configured) == n,
        n > u64::MAX ==> limit(Some(decimal(n)), configured) == configured,
        read_decimal(text) is None ==> limit(Some(text), configured) == configured,
        limit(None, configured) == configured,
{
    crate::text::decimal_reads_back(n);
}

/// What archives hold together is the sum of what each of them holds.
pub proof fn archives_are_summed(sizes: Seq<u64>, n: int)
    requires
        0 <= n <= sizes.len(),
    ensures
        total(sizes, n) == sizes.take(n).fold_left(0int, |sum: int, size: u64| sum + size),
    decreases n,
{
    reveal(Seq::fold_left);
    if n > 0 {
        archives_are_summed(sizes, n - 1);
        assert(sizes.take(n).drop_last() =~= sizes.take(n - 1));
        assert(sizes.take(n).last() == sizes[n - 1]);
    }
}

/// What waits to be written goes into the file that is written to as far as it
/// fits, and no byte is passed over: what does not fit waits until the file has
/// become an archive.
pub proof fn files_are_filled_to_their_limit(size: u64, pending: u64, limits: LoggingConfig)
    requires
        limits.max_file_bytes > 0,
    ensures
        size >= limits.max_file_bytes ==> log_step(size, pending, limits) is Rotate,
        size < limits.max_file_bytes ==> log_step(size, pending, limits) == LogStep::Append(
            if size + pending <= limits.max_file_bytes {
                pending
            } else {
                (limits.max_file_bytes - size) as u64
            },
        ),
{
}

/// The archives have all the room that the file that is written to leaves: what
/// the limit for all files is greater than that for one.
pub proof fn archives_have_the_room_that_is_left(limits: LoggingConfig)
    requires
        limits.max_file_bytes > 0,
    ensures
        limits.max_total_bytes >= limits.max_file_bytes ==> archive_room(limits)
            == limits.max_total_bytes - limits.max_file_bytes,
        limits.max_total_bytes < limits.max_file_bytes ==> archive_room(limits) == 0,
{
}

/// A full file becomes the first archive, and each archive gets the number that
/// follows its own.
pub proof fn archives_get_the_next_number(one: Renaming, log: Seq<char>, number: nat)
    requires
        is_renaming(one, log, number),
    ensures
        one.to@ == log + "."@ + decimal(number + 1),
        number == 0 ==> one.from@ == log,
        number > 0 ==> one.from@ == log + "."@ + decimal(number),
{
}

} // verus!
