//! The git hooks that keep the index fresh.
//!
//! A hook file belongs to the user; the library owns one marked block in it.
//! Installing rewrites that block and leaves the user's lines as they are,
//! uninstalling takes it out again.

use vstd::prelude::*;
use vstd::string::StringExecFns;

use crate::path::{join, joined};
use crate::text::{
    are_lines, body_of_line, cat2, flat, flat_lines_split_again, flat_of_concat, has_prefix,
    has_suffix, inclusive_lines, inclusive_lines_of_concat, inclusive_lines_shape, is_blank,
    is_line, line_body, one_line_is_its_own_lines, owned, same, split_lines, starts_with, trim_text,
    trimmed, views,
};

verus! {

/// The line that opens the managed block.
pub const BLOCK_START: &'static str = "# hallouminate-managed-block";

/// The line that closes the managed block.
pub const BLOCK_END: &'static str = "# /hallouminate-managed-block";

/// The command inside the managed block.
pub const HOOK_BODY: &'static str = "hallouminate index --restrict-to \"$PWD\" >/dev/null 2>&1 &";

/// The first line of a hook file that the library creates.
pub const SHEBANG: &'static str = "#!/bin/sh";

/// The hook that runs after a commit.
pub const POST_COMMIT: &'static str = "post-commit";

/// The hook that runs after a merge.
pub const POST_MERGE: &'static str = "post-merge";

/// Where to install the hooks: the given repository, or the one around the
/// working directory.
#[derive(Debug, Default, Clone)]
pub struct HookArgs {
    pub repo: Option<String>,
}

/// The text of a line feed.
pub open spec fn nl() -> Seq<char> {
    seq!['\n']
}

/// The lines that stay when the managed blocks are taken out of `lines`;
/// `in_block` says whether the first line stands inside a block.  A block that
/// is never closed reaches to the end.
pub open spec fn kept_lines(lines: Seq<Seq<char>>, in_block: bool) -> Seq<Seq<char>>
    decreases lines.len(),
{
    if lines.len() == 0 {
        Seq::empty()
    } else {
        let body = line_body(lines[0]);
        let rest = lines.drop_first();
        if body == BLOCK_START@ {
            kept_lines(rest, true)
        } else if in_block {
            kept_lines(rest, body != BLOCK_END@)
        } else {
            seq![lines[0]] + kept_lines(rest, false)
        }
    }
}

/// The text without its managed blocks.
pub open spec fn stripped(text: Seq<char>) -> Seq<char> {
    flat(kept_lines(inclusive_lines(text), false))
}

/// The text with a shebang line in front, unless it has one.
pub open spec fn with_shebang(text: Seq<char>) -> Seq<char> {
    if text.len() == 0 {
        SHEBANG@ + nl()
    } else if has_prefix(text, "#!"@) {
        text
    } else {
        SHEBANG@ + nl() + text
    }
}

/// The text with a line feed at its end, unless it has one.
pub open spec fn with_final_newline(text: Seq<char>) -> Seq<char> {
    if has_suffix(text, nl()) {
        text
    } else {
        text + nl()
    }
}

/// The user's part of an installed hook: what is not in a managed block, as an
/// executable script whose last line is finished.
pub open spec fn user_part(text: Seq<char>) -> Seq<char> {
    with_final_newline(with_shebang(stripped(text)))
}

/// The managed block.
pub open spec fn block() -> Seq<char> {
    (BLOCK_START@ + nl()) + (HOOK_BODY@ + nl()) + (BLOCK_END@ + nl())
}

/// The hook file after an install over `text`.
pub open spec fn installed(text: Seq<char>) -> Seq<char> {
    user_part(text) + block()
}

/// Whether nothing is left that a user wrote.
pub open spec fn only_shebang_or_blank(text: Seq<char>) -> bool {
    trimmed(text).len() == 0 || trimmed(text) == SHEBANG@
}

/// What an uninstall does to a hook file.
#[derive(Debug, PartialEq, Eq)]
pub enum HookEdit {
    /// There is no file, and none is made.
    Leave,
    /// The file held nothing else and goes.
    Remove,
    /// The file is written anew.
    Write(String),
}

/// How many lines of the text open a managed block.
pub open spec fn block_count(text: Seq<char>) -> nat {
    inclusive_lines(text).filter(|line: Seq<char>| line_body(line) == BLOCK_START@).len()
}

/// The text without its managed blocks.
pub fn strip_managed_block(text: &str) -> (out: String)
    ensures
        out@ == stripped(text@),
{
    let lines = split_lines(text);
    let mut out = String::new();
    let mut in_block = false;
    let ghost all = inclusive_lines(text@);
    proof {
        assert(all.skip(0) =~= all);
        assert(out@ + flat(kept_lines(all.skip(0), false)) =~= stripped(text@));
    }
    for i in 0..lines.len()
        invariant
            all == inclusive_lines(text@),
            views(lines@) == all,
            out@ + flat(kept_lines(all.skip(i as int), in_block)) == stripped(text@),
    {
        let ghost here = all.skip(i as int);
        let ghost before = out@;
        proof {
            assert(here.drop_first() =~= all.skip(i + 1));
            assert(here[0] == lines@[i as int]@);
        }
        let line = lines[i].as_str();
        let body = body_of_line(line);
        if same(body.as_str(), BLOCK_START) {
            in_block = true;
        } else if in_block {
            if same(body.as_str(), BLOCK_END) {
                in_block = false;
            }
        } else {
            out.append(line);
            proof {
                let rest = kept_lines(here.drop_first(), false);
                flat_of_concat(seq![here[0]], rest);
                flat_of_one(here[0]);
                assert(before + (here[0] + flat(rest)) =~= before + here[0] + flat(rest));
            }
        }
    }
    proof {
        assert(all.skip(all.len() as int) =~= Seq::<Seq<char>>::empty());
        assert(kept_lines(Seq::<Seq<char>>::empty(), in_block) =~= Seq::<Seq<char>>::empty());
        assert(out@ + Seq::<char>::empty() =~= out@);
    }
    out
}

/// The text with a shebang line in front, unless it has one.
pub fn ensure_shebang(text: &str) -> (out: String)
    ensures
        out@ == with_shebang(text@),
{
    if text.is_empty() {
        let mut out = owned(SHEBANG);
        out.push('\n');
        proof {
            assert(out@ =~= SHEBANG@ + nl());
        }
        return out;
    }
    if starts_with(text, "#!") {
        return owned(text);
    }
    let mut out = owned(SHEBANG);
    out.push('\n');
    proof {
        assert(out@ =~= SHEBANG@ + nl());
    }
    out.append(text);
    out
}

/// Whether nothing is left that a user wrote.
pub fn is_only_shebang_or_empty(text: &str) -> (out: bool)
    ensures
        out == only_shebang_or_blank(text@),
{
    let body = trim_text(text);
    body.as_str().is_empty() || same(body.as_str(), SHEBANG)
}

fn push_line(out: &mut String, line: &str)
    ensures
        final(out)@ == old(out)@ + (line@ + nl()),
{
    let ghost before = out@;
    out.append(line);
    out.push('\n');
    proof {
        assert(out@ =~= before + (line@ + nl()));
    }
}

/// The hook file after an install over `existing` (the empty text where there
/// is no file yet).
pub fn install_managed_block(existing: &str) -> (out: String)
    ensures
        out@ == installed(existing@),
{
    let user_text = strip_managed_block(existing);
    let mut next = ensure_shebang(user_text.as_str());
    let finished = crate::text::ends_with(next.as_str(), "\n");
    proof {
        reveal_strlit("\n");
        assert("\n"@ =~= nl());
    }
    let ghost before = next@;
    if !finished {
        next.push('\n');
        proof {
            assert(next@ =~= before + nl());
        }
    }
    let ghost user = next@;
    push_line(&mut next, BLOCK_START);
    push_line(&mut next, HOOK_BODY);
    push_line(&mut next, BLOCK_END);
    proof {
        three_appended(user, BLOCK_START@ + nl(), HOOK_BODY@ + nl(), BLOCK_END@ + nl());
    }
    next
}

proof fn three_appended(s: Seq<char>, a: Seq<char>, b: Seq<char>, c: Seq<char>)
    ensures
        s + a + b + c == s + (a + b + c),
{
    assert(s + a + b + c =~= s + (a + b + c));
}

/// What an uninstall does to a hook file that holds `existing`, or that is not
/// there.
pub fn uninstall_managed_block(existing: Option<&str>) -> (out: HookEdit)
    ensures
        existing is None ==> out is Leave,
        existing matches Some(text) ==> (if only_shebang_or_blank(stripped(text@)) {
            out is Remove
        } else {
            out matches HookEdit::Write(rest) && rest@ == stripped(text@)
        }),
{
    match existing {
        None => HookEdit::Leave,
        Some(text) => {
            let rest = strip_managed_block(text);
            if is_only_shebang_or_empty(rest.as_str()) {
                HookEdit::Remove
            } else {
                HookEdit::Write(rest)
            }
        },
    }
}

/// The hooks directory of the repository at `root`; an error where it is no
/// git repository.
pub fn resolve_hooks_dir(root: &str, git_entry_exists: bool) -> (out: Result<String, String>)
    ensures
        git_entry_exists ==> (out matches Ok(dir) && dir@ == joined(
            joined(root@, ".git"@),
            "hooks"@,
        )),
        !git_entry_exists ==> (out matches Err(message) && message@ == "not a git repository: "@
            + root@),
{
    if git_entry_exists {
        let git_dir = join(root, ".git");
        Ok(join(git_dir.as_str(), "hooks"))
    } else {
        Err(cat2("not a git repository: ", root))
    }
}

/// The hook files that are managed, in the order in which they are written.
pub fn hook_paths(hooks_dir: &str) -> (out: Vec<String>)
    ensures
        views(out@) == seq![
            joined(hooks_dir@, POST_COMMIT@),
            joined(hooks_dir@, POST_MERGE@),
        ],
{
    let mut out: Vec<String> = Vec::new();
    out.push(join(hooks_dir, POST_COMMIT));
    out.push(join(hooks_dir, POST_MERGE));
    proof {
        assert(views(out@) =~= seq![
            joined(hooks_dir@, POST_COMMIT@),
            joined(hooks_dir@, POST_MERGE@),
        ]);
    }
    out
}

proof fn literals()
    ensures
        BLOCK_START@.len() == 28,
        BLOCK_END@.len() == 29,
        HOOK_BODY@.len() == 57,
        SHEBANG@.len() == 9,
        "#!"@ == seq!['#', '!'],
        SHEBANG@ == seq!['#', '!', '/', 'b', 'i', 'n', '/', 's', 'h'],
        forall|i: int| 0 <= i < 28 ==> #[trigger] BLOCK_START@[i] != '\n',
        forall|i: int| 0 <= i < 29 ==> #[trigger] BLOCK_END@[i] != '\n',
        forall|i: int| 0 <= i < 57 ==> #[trigger] HOOK_BODY@[i] != '\n',
        BLOCK_START@[27] == 'k',
        BLOCK_END@[28] == 'k',
        HOOK_BODY@[56] == '&',
{
    reveal_strlit("# hallouminate-managed-block");
    reveal_strlit("# /hallouminate-managed-block");
    reveal_strlit("hallouminate index --restrict-to \"$PWD\" >/dev/null 2>&1 &");
    reveal_strlit("#!/bin/sh");
    reveal_strlit("#!");
    assert("#!"@ =~= seq!['#', '!']);
    assert(SHEBANG@ =~= seq!['#', '!', '/', 'b', 'i', 'n', '/', 's', 'h']);
}

proof fn flat_of_one(line: Seq<char>)
    ensures
        flat(seq![line]) == line,
{
    assert(seq![line].drop_last() =~= Seq::<Seq<char>>::empty());
    assert(flat(Seq::<Seq<char>>::empty()) =~= Seq::<char>::empty());
    assert(Seq::<char>::empty() + line =~= line);
}

/// A finished line without trailing carriage returns.
proof fn finished_line(text: Seq<char>)
    requires
        text.len() > 0,
        text.last() != '\n',
        text.last() != '\r',
        forall|i: int| 0 <= i < text.len() ==> #[trigger] text[i] != '\n',
    ensures
        is_line(text + nl()),
        line_body(text + nl()) == text,
        (text + nl()).last() == '\n',
{
    let line = text + nl();
    assert(line.drop_last() =~= text);
    assert(line.last() == '\n');
    assert(line_body(text) == text);
    assert forall|i: int| 0 <= i < line.len() - 1 implies #[trigger] line[i] != '\n' by {
        assert(line[i] == text[i]);
    }
}

/// What is kept are lines, none of which opens a block; unfinished only where
/// the last of `lines` is.
proof fn kept_are_lines(lines: Seq<Seq<char>>, in_block: bool)
    requires
        are_lines(lines),
    ensures
        are_lines(kept_lines(lines, in_block)),
        forall|i: int|
            0 <= i < kept_lines(lines, in_block).len() ==> line_body(
                #[trigger] kept_lines(lines, in_block)[i],
            ) != BLOCK_START@,
        kept_lines(lines, in_block).len() > 0 && lines.last().last() == '\n' ==> kept_lines(
            lines,
            in_block,
        ).last().last() == '\n',
    decreases lines.len(),
{
    if lines.len() > 0 {
        let body = line_body(lines[0]);
        let rest = lines.drop_first();
        assert(are_lines(rest)) by {
            assert forall|i: int| 0 <= i < rest.len() implies is_line(#[trigger] rest[i]) by {
                assert(is_line(lines[i + 1]));
            }
            assert forall|i: int| 0 <= i < rest.len() - 1 implies (#[trigger] rest[i]).last()
                == '\n' by {
                assert(lines[i + 1].last() == '\n');
            }
        }
        if rest.len() > 0 {
            assert(rest.last() == lines.last());
        }
        if body == BLOCK_START@ {
            kept_are_lines(rest, true);
        } else if in_block {
            kept_are_lines(rest, body != BLOCK_END@);
        } else {
            kept_are_lines(rest, false);
            let tail = kept_lines(rest, false);
            let all = seq![lines[0]] + tail;
            assert(is_line(lines[0]));
            assert forall|i: int| 0 <= i < all.len() implies is_line(#[trigger] all[i])
                && line_body(all[i]) != BLOCK_START@ by {
                if i > 0 {
                    assert(all[i] == tail[i - 1]);
                }
            }
            assert forall|i: int| 0 <= i < all.len() - 1 implies (#[trigger] all[i]).last()
                == '\n' by {
                if i > 0 {
                    assert(all[i] == tail[i - 1]);
                } else {
                    kept_of_none(rest, false);
                    assert(lines[0].last() == '\n');
                }
            }
            if tail.len() > 0 {
                assert(all.last() == tail.last());
            }
        }
    }
}

proof fn kept_of_none(lines: Seq<Seq<char>>, in_block: bool)
    ensures
        lines.len() == 0 ==> kept_lines(lines, in_block).len() == 0,
{
}

/// Lines of which none opens a block are all kept.
proof fn kept_without_block(lines: Seq<Seq<char>>)
    requires
        forall|i: int| 0 <= i < lines.len() ==> line_body(#[trigger] lines[i]) != BLOCK_START@,
    ensures
        kept_lines(lines, false) == lines,
    decreases lines.len(),
{
    if lines.len() > 0 {
        let rest = lines.drop_first();
        assert forall|i: int| 0 <= i < rest.len() implies line_body(#[trigger] rest[i])
            != BLOCK_START@ by {
            assert(line_body(lines[i + 1]) != BLOCK_START@);
        }
        kept_without_block(rest);
        assert(line_body(lines[0]) != BLOCK_START@);
        assert(seq![lines[0]] + rest =~= lines);
    } else {
        assert(kept_lines(lines, false) =~= lines);
    }
}

/// The lines before a block are decided on their own.
proof fn kept_of_concat(a: Seq<Seq<char>>, b: Seq<Seq<char>>)
    requires
        forall|i: int| 0 <= i < a.len() ==> line_body(#[trigger] a[i]) != BLOCK_START@,
    ensures
        kept_lines(a + b, false) == a + kept_lines(b, false),
    decreases a.len(),
{
    if a.len() > 0 {
        let rest = a.drop_first();
        assert forall|i: int| 0 <= i < rest.len() implies line_body(#[trigger] rest[i])
            != BLOCK_START@ by {
            assert(line_body(a[i + 1]) != BLOCK_START@);
        }
        kept_of_concat(rest, b);
        assert((a + b).drop_first() =~= rest + b);
        assert(line_body(a[0]) != BLOCK_START@);
        assert((a + b)[0] == a[0]);
        assert(seq![a[0]] + (rest + kept_lines(b, false)) =~= a + kept_lines(b, false));
    } else {
        assert(a + b =~= b);
        assert(a + kept_lines(b, false) =~= kept_lines(b, false));
    }
}

spec fn block_lines() -> Seq<Seq<char>> {
    seq![BLOCK_START@ + nl(), HOOK_BODY@ + nl(), BLOCK_END@ + nl()]
}

proof fn block_is_three_lines()
    ensures
        inclusive_lines(block()) == block_lines(),
        kept_lines(block_lines(), false) == Seq::<Seq<char>>::empty(),
        line_body(block_lines()[0]) == BLOCK_START@,
        line_body(block_lines()[1]) == HOOK_BODY@,
        line_body(block_lines()[2]) == BLOCK_END@,
        HOOK_BODY@ != BLOCK_START@,
        BLOCK_END@ != BLOCK_START@,
        HOOK_BODY@ != BLOCK_END@,
{
    literals();
    finished_line(BLOCK_START@);
    finished_line(HOOK_BODY@);
    finished_line(BLOCK_END@);
    let l0 = BLOCK_START@ + nl();
    let l1 = HOOK_BODY@ + nl();
    let l2 = BLOCK_END@ + nl();
    one_line_is_its_own_lines(l0);
    one_line_is_its_own_lines(l1);
    one_line_is_its_own_lines(l2);
    inclusive_lines_of_concat(l0, l1);
    assert((l0 + l1).last() == '\n');
    inclusive_lines_of_concat(l0 + l1, l2);
    assert(inclusive_lines(block()) =~= block_lines());
    let b = block_lines();
    let b1 = b.drop_first();
    let b2 = b1.drop_first();
    let b3 = b2.drop_first();
    assert(b1[0] == l1);
    assert(b2[0] == l2);
    assert(b3.len() == 0);
    assert(kept_lines(b3, false) =~= Seq::<Seq<char>>::empty());
    assert(kept_lines(b2, true) == kept_lines(b3, false));
    assert(kept_lines(b1, true) == kept_lines(b2, true));
    assert(kept_lines(b, false) == kept_lines(b1, true));
}

/// The user's part holds no line that opens a block, and its last line is
/// finished.
proof fn user_part_shape(text: Seq<char>)
    ensures
        user_part(text).len() > 0,
        user_part(text).last() == '\n',
        has_prefix(user_part(text), "#!"@),
        forall|i: int|
            0 <= i < inclusive_lines(user_part(text)).len() ==> line_body(
                #[trigger] inclusive_lines(user_part(text))[i],
            ) != BLOCK_START@,
{
    literals();
    let kept = kept_lines(inclusive_lines(text), false);
    let rest = stripped(text);
    inclusive_lines_shape(text);
    kept_are_lines(inclusive_lines(text), false);
    flat_lines_split_again(kept);
    // The lines after the shebang has been put in front.
    let head = SHEBANG@ + nl();
    finished_line(SHEBANG@);
    one_line_is_its_own_lines(head);
    let script = with_shebang(rest);
    let lines = inclusive_lines(script);
    inclusive_lines_shape(script);
    if rest.len() == 0 {
        assert(script =~= head);
    } else if !has_prefix(rest, "#!"@) {
        inclusive_lines_of_concat(head, rest);
    }
    assert(script.len() > 0);
    assert(has_prefix(script, "#!"@)) by {
        if !has_prefix(rest, "#!"@) || rest.len() == 0 {
            assert(script.take(2) =~= "#!"@);
        }
    }
    assert forall|i: int| 0 <= i < lines.len() implies line_body(#[trigger] lines[i])
        != BLOCK_START@ by {
        if rest.len() == 0 {
            assert(lines[i] == head);
        } else if has_prefix(rest, "#!"@) {
            assert(lines[i] == kept[i]);
        } else if i == 0 {
            assert(lines[i] == head);
        } else {
            assert(lines[i] == kept[i - 1]);
        }
    }
    // The lines after the last one has been finished.
    let user = user_part(text);
    if has_suffix(script, nl()) {
        assert(script.skip(script.len() - 1)[0] == script.last());
        assert(user == script);
    } else {
        if script.last() == '\n' {
            assert(script.skip(script.len() - 1) =~= nl());
        }
        let front = lines.drop_last();
        let last = lines.last();
        let grown = last + nl();
        assert(user == script + nl());
        assert(user.drop_last() =~= script);
        assert(last.last() != '\n');
        assert(last.push('\n') =~= grown);
        assert(inclusive_lines(user) =~= front.push(grown));
        assert(grown.drop_last() =~= last);
        assert(line_body(grown) == line_body(last));
        assert forall|i: int| 0 <= i < inclusive_lines(user).len() implies line_body(
            #[trigger] inclusive_lines(user)[i],
        ) != BLOCK_START@ by {
            if i < front.len() {
                assert(inclusive_lines(user)[i] == lines[i]);
            } else {
                assert(lines[i] == last);
            }
        }
        assert(user.take(2) =~= script.take(2));
    }
}

proof fn installed_lines(text: Seq<char>)
    ensures
        inclusive_lines(installed(text)) == inclusive_lines(user_part(text)) + block_lines(),
{
    user_part_shape(text);
    block_is_three_lines();
    inclusive_lines_of_concat(user_part(text), block());
}

/// Taking the managed blocks out twice is taking them out once.
pub proof fn strip_is_idempotent(text: Seq<char>)
    ensures
        stripped(stripped(text)) == stripped(text),
        block_count(stripped(text)) == 0,
{
    let kept = kept_lines(inclusive_lines(text), false);
    inclusive_lines_shape(text);
    kept_are_lines(inclusive_lines(text), false);
    flat_lines_split_again(kept);
    kept_without_block(kept);
    no_match_filters_to_nothing(kept);
}

/// A text without a managed block is left as it is.
pub proof fn strip_keeps_text_without_block(text: Seq<char>)
    requires
        block_count(text) == 0,
    ensures
        stripped(text) == text,
{
    let lines = inclusive_lines(text);
    let opens = |line: Seq<char>| line_body(line) == BLOCK_START@;
    inclusive_lines_shape(text);
    assert forall|i: int| 0 <= i < lines.len() implies line_body(#[trigger] lines[i])
        != BLOCK_START@ by {
        if opens(lines[i]) {
            lines.lemma_filter_contains(opens, i);
        }
    }
    kept_without_block(lines);
}

proof fn filter_picks_from(lines: Seq<Seq<char>>, pick: spec_fn(Seq<char>) -> bool, i: int)
    requires
        0 <= i < lines.filter(pick).len(),
    ensures
        lines.contains(lines.filter(pick)[i]),
    decreases lines.len(),
{
    reveal(Seq::filter);
    if lines.len() > 0 {
        let front = lines.drop_last();
        if i < front.filter(pick).len() {
            filter_picks_from(front, pick, i);
            let j = choose|j: int| 0 <= j < front.len() && front[j] == front.filter(pick)[i];
            assert(lines[j] == lines.filter(pick)[i]);
        } else {
            assert(lines[lines.len() - 1] == lines.filter(pick)[i]);
        }
    }
}

proof fn no_match_filters_to_nothing(lines: Seq<Seq<char>>)
    requires
        forall|i: int| 0 <= i < lines.len() ==> line_body(#[trigger] lines[i]) != BLOCK_START@,
    ensures
        lines.filter(|line: Seq<char>| line_body(line) == BLOCK_START@).len() == 0,
{
    let opens = |line: Seq<char>| line_body(line) == BLOCK_START@;
    let found = lines.filter(opens);
    if found.len() > 0 {
        lines.lemma_filter_pred(opens, 0);
        filter_picks_from(lines, opens, 0);
    }
}

/// After an install the hook holds the user's part and exactly one managed
/// block, which holds the command.
pub proof fn install_leaves_one_block(text: Seq<char>)
    ensures
        block_count(installed(text)) == 1,
        installed(text) == user_part(text) + block(),
        has_prefix(installed(text), "#!"@),
{
    let opens = |line: Seq<char>| line_body(line) == BLOCK_START@;
    let user = inclusive_lines(user_part(text));
    literals();
    user_part_shape(text);
    installed_lines(text);
    block_is_three_lines();
    no_match_filters_to_nothing(user);
    let b = block_lines();
    broadcast use Seq::filter_distributes_over_add;

    assert((user + b).filter(opens) == user.filter(opens) + b.filter(opens));
    let b0 = seq![b[0]];
    let b1 = seq![b[1]];
    let b2 = seq![b[2]];
    assert(b =~= b0 + b1 + b2);
    assert((b0 + b1 + b2).filter(opens) == (b0 + b1).filter(opens) + b2.filter(opens));
    assert((b0 + b1).filter(opens) == b0.filter(opens) + b1.filter(opens));
    one_line_filter(b[0]);
    one_line_filter(b[1]);
    one_line_filter(b[2]);
    assert(installed(text).take(2) =~= user_part(text).take(2));
}

proof fn one_line_filter(line: Seq<char>)
    ensures
        seq![line].filter(|l: Seq<char>| line_body(l) == BLOCK_START@).len() == (if line_body(line)
            == BLOCK_START@ {
            1nat
        } else {
            0nat
        }),
{
    let opens = |l: Seq<char>| line_body(l) == BLOCK_START@;
    reveal(Seq::filter);
    assert(seq![line].drop_last() =~= Seq::<Seq<char>>::empty());
    assert(seq![line].drop_last().filter(opens) =~= Seq::<Seq<char>>::empty());
}

/// Taking the block out of an installed hook gives the user's part back.
pub proof fn uninstall_undoes_install(text: Seq<char>)
    ensures
        stripped(installed(text)) == user_part(text),
{
    let user = inclusive_lines(user_part(text));
    user_part_shape(text);
    installed_lines(text);
    block_is_three_lines();
    kept_of_concat(user, block_lines());
    assert(user + Seq::<Seq<char>>::empty() =~= user);
    inclusive_lines_shape(user_part(text));
}

/// A hook file that already was a finished script comes back unchanged when
/// the block is installed and taken out again.
pub proof fn finished_script_survives(text: Seq<char>)
    requires
        block_count(text) == 0,
        has_prefix(text, "#!"@),
        text.last() == '\n',
    ensures
        stripped(installed(text)) == text,
{
    literals();
    uninstall_undoes_install(text);
    strip_keeps_text_without_block(text);
    assert(text.skip(text.len() - 1) =~= nl());
}

/// Installing twice is installing once.
pub proof fn install_is_idempotent(text: Seq<char>)
    ensures
        installed(installed(text)) == installed(text),
{
    literals();
    user_part_shape(text);
    uninstall_undoes_install(text);
    let user = user_part(text);
    assert(with_shebang(user) == user);
    assert(user.skip(user.len() - 1) =~= nl());
    assert(with_final_newline(user) == user);
}

/// A hook file that an install made from nothing is removed by the uninstall.
pub proof fn fresh_install_is_removed()
    ensures
        only_shebang_or_blank(stripped(installed(Seq::<char>::empty()))),
{
    let none = Seq::<char>::empty();
    literals();
    uninstall_undoes_install(none);
    assert(inclusive_lines(none) =~= Seq::<Seq<char>>::empty());
    assert(kept_lines(inclusive_lines(none), false) =~= Seq::<Seq<char>>::empty());
    assert(stripped(none) =~= none);
    let script = SHEBANG@ + nl();
    assert(with_shebang(none) =~= script);
    assert(script.skip(script.len() - 1) =~= nl());
    assert(user_part(none) =~= script);
    assert(crate::text::trim_front(script) == script);
    assert(script.drop_last() =~= SHEBANG@);
    assert(script.last() == '\n');
    assert(crate::text::trim_back(SHEBANG@) == SHEBANG@);
}

/// What stands before and behind a managed block stays when the block is taken
/// out, line by line, and nothing of the block does: neither the lines that open
/// and close it nor those between them.
pub proof fn lines_around_a_block_stay(
    before: Seq<Seq<char>>,
    opening: Seq<char>,
    between: Seq<Seq<char>>,
    closing: Seq<char>,
    behind: Seq<Seq<char>>,
)
    requires
        are_lines(before.push(opening) + between.push(closing) + behind),
        forall|i: int|
            0 <= i < before.len() ==> line_body(#[trigger] before[i])
                != "# hallouminate-managed-block"@,
        line_body(opening) == "# hallouminate-managed-block"@,
        forall|i: int|
            0 <= i < between.len() ==> line_body(#[trigger] between[i])
                != "# /hallouminate-managed-block"@,
        line_body(closing) == "# /hallouminate-managed-block"@,
        forall|i: int|
            0 <= i < behind.len() ==> line_body(#[trigger] behind[i])
                != "# hallouminate-managed-block"@,
    ensures
        stripped(flat(before.push(opening) + between.push(closing) + behind)) == flat(
            before + behind,
        ),
{
    let all = before.push(opening) + between.push(closing) + behind;
    flat_lines_split_again(all);
    let rest = seq![opening] + between.push(closing) + behind;
    assert(all =~= before + rest);
    kept_of_concat(before, rest);
    let inner = between.push(closing) + behind;
    assert(rest.drop_first() =~= inner);
    assert(rest[0] == opening);
    block_reaches_to_its_end(between, closing, behind);
    assert(kept_lines(rest, false) == behind);
}

proof fn block_reaches_to_its_end(
    between: Seq<Seq<char>>,
    closing: Seq<char>,
    behind: Seq<Seq<char>>,
)
    requires
        forall|i: int|
            0 <= i < between.len() ==> line_body(#[trigger] between[i])
                != "# /hallouminate-managed-block"@,
        line_body(closing) == "# /hallouminate-managed-block"@,
        forall|i: int|
            0 <= i < behind.len() ==> line_body(#[trigger] behind[i])
                != "# hallouminate-managed-block"@,
    ensures
        kept_lines(between.push(closing) + behind, true) == behind,
    decreases between.len(),
{
    let lines = between.push(closing) + behind;
    block_is_three_lines();
    if between.len() == 0 {
        assert(lines[0] == closing);
        assert(lines.drop_first() =~= behind);
        kept_without_block(behind);
    } else {
        let fewer = between.drop_first();
        assert(lines[0] == between[0]);
        assert(lines.drop_first() =~= fewer.push(closing) + behind);
        assert forall|i: int| 0 <= i < fewer.len() implies line_body(#[trigger] fewer[i])
            != "# /hallouminate-managed-block"@ by {
            assert(fewer[i] == between[i + 1]);
        }
        block_reaches_to_its_end(fewer, closing, behind);
    }
}

/// A hook that is installed over a file without a block is the file, with a line
/// that says what runs it in front where it had none, and its last line ended,
/// and then the block, which holds the command.
pub proof fn hooks_are_installed_behind_the_file(text: Seq<char>)
    requires
        block_count(text) == 0,
    ensures
        ({
            let script = if text.len() >= 2 && text[0] == '#' && text[1] == '!' {
                text
            } else {
                "#!/bin/sh"@ + seq!['\n'] + text
            };
            installed(text) == script + (if script.last() == '\n' {
                Seq::empty()
            } else {
                seq!['\n']
            }) + ("# hallouminate-managed-block"@ + seq!['\n']) + (
            "hallouminate index --restrict-to \"$PWD\" >/dev/null 2>&1 &"@ + seq!['\n']) + (
            "# /hallouminate-managed-block"@ + seq!['\n'])
        }),
{
    strip_keeps_text_without_block(text);
    literals();
    let script = if text.len() >= 2 && text[0] == '#' && text[1] == '!' {
        text
    } else {
        "#!/bin/sh"@ + seq!['\n'] + text
    };
    if text.len() >= 2 {
        assert(text.take(2)[0] == text[0] && text.take(2)[1] == text[1]);
        if text[0] == '#' && text[1] == '!' {
            assert(text.take(2) =~= "#!"@);
        }
    }
    assert(with_shebang(text) =~= script);
    assert(script.len() > 0);
    assert(script.skip(script.len() - 1)[0] == script.last());
    if script.last() == '\n' {
        assert(script.skip(script.len() - 1) =~= nl());
        assert(with_final_newline(script) =~= script + Seq::<char>::empty());
    } else {
        assert(!has_suffix(script, nl()));
    }
    three_appended(
        with_final_newline(script),
        BLOCK_START@ + nl(),
        HOOK_BODY@ + nl(),
        BLOCK_END@ + nl(),
    );
}

/// A hook file goes where nothing is left in it but white space, or the line
/// that says what runs it.
pub proof fn files_go_where_nothing_is_left(text: Seq<char>)
    ensures
        only_shebang_or_blank(text) <==> is_blank(text) || trimmed(text) == "#!/bin/sh"@,
{
    crate::text::blank_trims_to_nothing(text);
}

} // verus!
