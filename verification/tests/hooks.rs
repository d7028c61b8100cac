//! The hooks that a commit goes through.

use revlocal_daemon::hooks::{
    holds_block, hooks_candidates, hooks_dir, insert_block, install, install_one, is_ours_entirely, managed_block,
    replace_block_in_place, strip_block, to_plain_ends, uninstall, uninstall_one, whole_hook, HookError, HookMode,
    HookOutcome, BEGIN_MARKER, END_MARKER,
};

fn block() -> String {
    managed_block("acme", 41791, "REVLOCAL_SECRET")
}

#[test]
fn a_block_never_fails_the_commit() {
    let text = block();
    assert!(text.starts_with(&format!("{BEGIN_MARKER}\n# Notifies rev-local that acme changed.")));
    assert!(text.ends_with(&format!("http://127.0.0.1:41791/trigger >/dev/null 2>&1 || true\nfi\n{END_MARKER}\n")));
    assert!(text.contains("--max-time 2 \\\n"));
    assert!(text.contains("--header \"x-revlocal-secret: ${REVLOCAL_SECRET:-}\" \\\n"));
    assert!(text.contains("--data '{\"repo\":\"acme\"}' \\\n"));
    assert!(!text.lines().any(|line| line.trim() == "set -e"));
}

#[test]
fn a_new_hook_is_written_whole() {
    let (contents, outcome) = install_one("/r/post-commit", None, &block());
    assert_eq!(outcome, HookOutcome::Created("/r/post-commit".to_owned()));
    assert_eq!(contents, whole_hook(&block()));
    assert!(contents.starts_with("#!/bin/sh\n") && contents.ends_with("exit 0\n"));
    assert!(is_ours_entirely(&contents));
    assert_eq!(
        uninstall_one("/r/post-commit", Some(&contents)),
        (HookOutcome::Deleted("/r/post-commit".to_owned()), None)
    );
}

#[test]
fn a_block_goes_before_a_trailing_exit() {
    let theirs = "#!/bin/sh\necho mine\nexit 0\n# bye\n";
    let (contents, outcome) = install_one("/r/h", Some(theirs), &block());
    assert_eq!(outcome, HookOutcome::Appended("/r/h".to_owned()));
    assert_eq!(contents, format!("#!/bin/sh\necho mine\n{}exit 0\n# bye\n", block()));
    assert_eq!(
        uninstall_one("/r/h", Some(&contents)),
        (HookOutcome::Removed("/r/h".to_owned()), Some(theirs.to_owned()))
    );
    assert_eq!(insert_block("echo mine", "b\n"), "echo mine\nb\n");
}

#[test]
fn installing_twice_is_installing_once() {
    let (once, _) = install_one("/r/h", Some("echo mine\n"), &block());
    let (twice, outcome) = install_one("/r/h", Some(&once), &block());
    assert_eq!(outcome, HookOutcome::Replaced("/r/h".to_owned()));
    assert_eq!(once, twice);
    let other = managed_block("acme", 1, "S");
    assert_eq!(replace_block_in_place(&once, &other), format!("echo mine\n{other}"));
}

#[test]
fn a_hook_without_a_block_is_left_alone() {
    assert_eq!(
        uninstall_one("/r/h", Some("echo mine\n")),
        (HookOutcome::Untouched("/r/h".to_owned()), None)
    );
    assert_eq!(uninstall_one("/r/h", None), (HookOutcome::Untouched("/r/h".to_owned()), None));
    assert_eq!(strip_block(&format!("{END_MARKER}\n{BEGIN_MARKER}\n")), None);
    assert_eq!(strip_block(&format!("a\n{BEGIN_MARKER}\nx\n{END_MARKER}b\n")).as_deref(), Some("a\nb\n"));
    assert!(!is_ours_entirely("exit 0\n"));
}

#[test]
fn line_ends_are_plain_when_written() {
    assert_eq!(to_plain_ends("a\r\nb\rc\n\r\n"), "a\nb\rc\n\n");
    let (contents, _) = install_one("/r/h", Some("echo mine\r\n"), &block());
    assert!(!contents.contains("\r\n"));
}

#[test]
fn hooks_lie_where_git_keeps_them() {
    assert_eq!(hooks_candidates("/r"), ("/r/.git/hooks".to_owned(), "/r/hooks".to_owned()));
    assert_eq!(hooks_dir("/r", true, true).expect("a directory"), "/r/.git/hooks");
    assert_eq!(hooks_dir("/r", false, true).expect("a directory"), "/r/hooks");
    let none = hooks_dir("/r", false, false).expect_err("no repository");
    assert!(none.describe().starts_with("/r does not look like a git repository (no hooks directory)\n  try: "));
    assert_eq!(
        HookError::Io { path: "/r/h".to_owned(), source: "denied".to_owned() }.describe(),
        "could not write /r/h: denied"
    );
    assert_eq!(HookMode::Reference.hook_names(), ["post-commit", "post-merge", "post-checkout"]);
    assert_eq!(HookMode::BareMirror.hook_names(), ["post-receive"]);
    assert_eq!(HookMode::BareMirror.as_str(), "bare-mirror");
    assert_eq!(HookOutcome::Created("/r/h".to_owned()).path(), "/r/h");
}

#[test]
fn each_hook_of_a_mode_gets_the_block() {
    let (files, text) =
        install("/r", true, false, "acme", HookMode::Reference, 41791, "REVLOCAL_SECRET").expect("a plan");
    assert_eq!(
        files,
        ["/r/.git/hooks/post-commit", "/r/.git/hooks/post-merge", "/r/.git/hooks/post-checkout"]
    );
    assert_eq!(text, block());
    assert_eq!(uninstall("/r", false, true, HookMode::BareMirror).expect("a plan"), ["/r/hooks/post-receive"]);
    assert!(matches!(
        install("/r", false, false, "acme", HookMode::Reference, 1, "S"),
        Err(HookError::NotARepo { .. })
    ));
    assert!(matches!(uninstall("/r", false, false, HookMode::Reference), Err(HookError::NotARepo { .. })));
}

#[test]
fn a_stray_carriage_return_settles() {
    let (once, _) = install_one("/r/h", Some("echo a\r\r\nexit 0\r\n"), &block());
    assert_eq!(once, format!("echo a\n{}exit 0\n", block()));
    let (twice, _) = install_one("/r/h", Some(&once), &block());
    assert_eq!(once, twice);
    assert_eq!(strip_block(&once).as_deref(), Some("echo a\nexit 0\n"));
}

#[test]
fn installing_over_a_block_writes_the_same_again() {
    let old = managed_block("another", 1, "OTHER");
    for existing in [
        None,
        Some("echo mine\nexit 0\n".to_owned()),
        Some(format!("echo mine\n{old}exit 0\n")),
        Some(format!("echo mine {old}\r\nexit 0")),
        Some(format!("echo a\r\r\n{old}")),
    ] {
        let (once, _) = install_one("/r/h", existing.as_deref(), &block());
        assert_eq!(once.matches(BEGIN_MARKER).count(), 1, "{once}");
        assert!(holds_block(&once));
        let (twice, outcome) = install_one("/r/h", Some(&once), &block());
        assert_eq!(outcome, HookOutcome::Replaced("/r/h".to_owned()));
        assert_eq!(twice, to_plain_ends(&once));
        assert_eq!(twice == once, !once.contains("\r\n"));
    }
    let (once, _) = install_one("/r/h", Some(&format!("echo a\r\r\n{old}")), &block());
    assert!(once.starts_with("echo a\r\n"), "one carriage return is left over");
}

#[test]
fn uninstalling_undoes_installing() {
    assert!(!holds_block("echo mine\n"));
    for name in [
        "acme",
        "odd # <<< rev-local",
        "# <<< rev-local end <<",
        "# >>> rev-local begin (managed\r",
        "a\nb",
        BEGIN_MARKER,
    ] {
        let text = managed_block(name, 9, "S#");
        let (fresh, _) = install_one("/r/h", None, &text);
        assert_eq!(uninstall_one("/r/h", Some(&fresh)), (HookOutcome::Deleted("/r/h".to_owned()), None), "{name}");

        for theirs in ["echo mine\n", "#!/bin/sh\n\nmake check\nexit 0\n", "exit 1\n"] {
            let (with_block, _) = install_one("/r/h", Some(theirs), &text);
            assert_eq!(
                uninstall_one("/r/h", Some(&with_block)),
                (HookOutcome::Removed("/r/h".to_owned()), Some(theirs.to_owned())),
                "{name}"
            );
        }
        for base in ["", "\n", "exit 0\n", "# only a comment\n\n"] {
            assert_eq!(strip_block(&insert_block(base, &text)).as_deref(), Some(base), "{name}");
            assert_eq!(strip_block(base), None);
        }
    }
}
