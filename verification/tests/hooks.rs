use hallouminate::hook::{
    ensure_shebang, hook_paths, install_managed_block, is_only_shebang_or_empty,
    resolve_hooks_dir, strip_managed_block, uninstall_managed_block, HookEdit, BLOCK_END,
    BLOCK_START, HOOK_BODY,
};

fn count_managed_blocks(text: &str) -> usize {
    text.match_indices(BLOCK_START).count()
}

#[test]
fn install_in_fresh_repo_writes_both_hook_files() {
    let dir = resolve_hooks_dir("/r", true).expect("a git repository");
    assert_eq!(dir, "/r/.git/hooks");
    assert_eq!(
        hook_paths(&dir),
        vec!["/r/.git/hooks/post-commit", "/r/.git/hooks/post-merge"]
    );
    let body = install_managed_block("");
    assert!(body.starts_with("#!/bin/sh"), "missing shebang");
    assert_eq!(count_managed_blocks(&body), 1, "block count");
    assert!(body.contains(HOOK_BODY), "missing hook body");
    assert_eq!(
        body,
        "#!/bin/sh\n# hallouminate-managed-block\n\
         hallouminate index --restrict-to \"$PWD\" >/dev/null 2>&1 &\n\
         # /hallouminate-managed-block\n"
    );
}

#[test]
fn install_twice_leaves_single_managed_block_per_hook() {
    let once = install_managed_block("");
    let twice = install_managed_block(&once);
    assert_eq!(count_managed_blocks(&twice), 1, "must contain one block");
    assert_eq!(once, twice);
}

#[test]
fn uninstall_removes_managed_block_and_drops_empty_hook_file() {
    let installed = install_managed_block("");
    assert_eq!(
        uninstall_managed_block(Some(&installed)),
        HookEdit::Remove,
        "file should be removed when only the managed block remained"
    );
}

#[test]
fn uninstall_preserves_user_lines_outside_managed_block() {
    let installed = install_managed_block("#!/bin/sh\necho 'user line'\n");
    match uninstall_managed_block(Some(&installed)) {
        HookEdit::Write(body) => {
            assert!(body.contains("echo 'user line'"), "user line lost: {body}");
            assert_eq!(count_managed_blocks(&body), 0, "managed block remains");
            assert_eq!(body, "#!/bin/sh\necho 'user line'\n");
        }
        other => panic!("expected the file to be written: {other:?}"),
    }
}

#[test]
fn install_appends_block_to_existing_hook_with_user_content() {
    let body = install_managed_block("#!/bin/sh\necho 'pre-existing'\n");
    assert!(body.contains("echo 'pre-existing'"), "user line lost");
    assert_eq!(count_managed_blocks(&body), 1, "exactly one block");
    assert!(body.contains(HOOK_BODY), "missing hook body");
}

#[test]
fn install_errors_when_target_is_not_a_git_repo() {
    let err = resolve_hooks_dir("/r", false).expect_err("not a git repo");
    assert!(err.contains("not a git repository"), "{err}");
}

#[test]
fn uninstall_is_noop_when_no_hooks_exist() {
    assert_eq!(uninstall_managed_block(None), HookEdit::Leave);
}

#[test]
fn a_script_without_shebang_gets_one() {
    assert_eq!(ensure_shebang("echo hi\n"), "#!/bin/sh\necho hi\n");
    assert_eq!(ensure_shebang("#!/bin/bash\n"), "#!/bin/bash\n");
    assert_eq!(ensure_shebang(""), "#!/bin/sh\n");
}

#[test]
fn an_unfinished_last_line_is_finished_before_the_block() {
    let body = install_managed_block("#!/bin/sh\necho hi");
    assert!(body.starts_with("#!/bin/sh\necho hi\n# hallouminate-managed-block\n"), "{body}");
}

#[test]
fn blocks_are_taken_out_wherever_they_stand() {
    let text = format!("a\n{BLOCK_START}\r\nx\n{BLOCK_END}\nb\n{BLOCK_START}\nnever closed\n");
    assert_eq!(strip_managed_block(&text), "a\nb\n");
    assert_eq!(strip_managed_block("a\n  # hallouminate-managed-block\n"), "a\n  # hallouminate-managed-block\n");
}

#[test]
fn a_blank_script_holds_nothing_of_the_user() {
    assert!(is_only_shebang_or_empty(" \n\t"));
    assert!(is_only_shebang_or_empty("#!/bin/sh\n\n"));
    assert!(!is_only_shebang_or_empty("#!/bin/bash\n"));
}
