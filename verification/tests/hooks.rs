use jj_hooks::bookmark_updates::{BookmarkUpdate, UpdateType, parse_git_push_dry_run};
use jj_hooks::error::JjHooksError;
use jj_hooks::hooks::{HookOutcome, UpdateAction, UpdateEvent, fixup_bookmark, fixup_ref, ref_safe_name, run_for_update};
use jj_hooks::runner::{Runner, Stage};

fn update(old: Option<&str>, new: Option<&str>, t: UpdateType) -> BookmarkUpdate {
    BookmarkUpdate {
        remote: "origin".to_string(),
        bookmark: "main".to_string(),
        update_type: t,
        old_commit: old.map(|s| s.to_string()),
        new_commit: new.map(|s| s.to_string()),
    }
}

fn strs(v: &[&str]) -> Vec<String> {
    v.iter().map(|s| s.to_string()).collect()
}

#[test]
fn fixup_names_for_plain_bookmark() {
    assert_eq!(fixup_ref("main"), "refs/heads/jj-hooks-fixup/main");
    assert_eq!(fixup_bookmark("main"), "jj-hooks-fixup/main");
    assert_eq!(fixup_ref("feature/x"), "refs/heads/jj-hooks-fixup/feature/x");
}

#[test]
fn fixup_names_scrub_bad_characters() {
    assert_eq!(fixup_ref("revset:@-"), "refs/heads/jj-hooks-fixup/revset_@-");
    assert_eq!(fixup_bookmark("revset:@-"), "jj-hooks-fixup/revset_@-");
    assert_eq!(fixup_bookmark("a b~c^d?e*f[g\\h"), "jj-hooks-fixup/a_b_c_d_e_f_g_h");
}

#[test]
fn delete_update_finishes_at_once() {
    let (_, action) = run_for_update(&update(Some("abc"), None, UpdateType::Delete), None, Stage::PrePush);
    match action {
        UpdateAction::Finish(HookOutcome { success, fixup_commit }) => {
            assert!(success);
            assert!(fixup_commit.is_none());
        }
        other => panic!("unexpected {other:?}"),
    }
}

#[test]
fn moved_bookmark_with_passing_hooks_and_no_changes() {
    let u = update(Some("old1"), Some("new1"), UpdateType::MoveForward);
    let (mut run, a) = run_for_update(&u, Some(Runner::PreCommit), Stage::PrePush);
    assert!(matches!(a, UpdateAction::CreateWorktree { ref commit } if commit == "new1"));
    let a = run.resume(UpdateEvent::Done).unwrap();
    match a {
        UpdateAction::RunHook { argv } => assert_eq!(
            argv,
            strs(&["pre-commit", "run", "--hook-stage", "pre-push", "--from-ref", "old1", "--to-ref", "new1"])
        ),
        other => panic!("unexpected {other:?}"),
    }
    let a = run.resume(UpdateEvent::Exited(true)).unwrap();
    assert!(matches!(a, UpdateAction::WriteTree));
    let a = run.resume(UpdateEvent::Output("tree1\n".to_string())).unwrap();
    assert!(matches!(a, UpdateAction::ReadTree { ref rev } if rev == "new1^{tree}"));
    let a = run.resume(UpdateEvent::Output("tree1\n".to_string())).unwrap();
    match a {
        UpdateAction::Finish(o) => {
            assert!(o.success);
            assert!(o.fixup_commit.is_none());
        }
        other => panic!("unexpected {other:?}"),
    }
}

#[test]
fn modified_tree_builds_fixup_commit() {
    let u = update(Some("old1"), Some("new1"), UpdateType::MoveForward);
    let (mut run, _) = run_for_update(&u, Some(Runner::Hk), Stage::PrePush);
    let a = run.resume(UpdateEvent::Done).unwrap();
    assert!(matches!(a, UpdateAction::RunHook { ref argv } if *argv == strs(&["hk", "run", "pre-push"])));
    let _ = run.resume(UpdateEvent::Exited(false)).unwrap();
    let _ = run.resume(UpdateEvent::Output("tree2".to_string())).unwrap();
    let a = run.resume(UpdateEvent::Output("tree1".to_string())).unwrap();
    match a {
        UpdateAction::CommitTree { tree, parent, message } => {
            assert_eq!(tree, "tree2");
            assert_eq!(parent, "new1");
            assert_eq!(message, "jj-hooks: autofixes for main");
        }
        other => panic!("unexpected {other:?}"),
    }
    let a = run.resume(UpdateEvent::Output(" fix9 \n".to_string())).unwrap();
    match a {
        UpdateAction::UpdateRef { ref_name, commit } => {
            assert_eq!(ref_name, "refs/heads/jj-hooks-fixup/main");
            assert_eq!(commit, "fix9");
        }
        other => panic!("unexpected {other:?}"),
    }
    assert!(matches!(run.resume(UpdateEvent::Done).unwrap(), UpdateAction::Import));
    match run.resume(UpdateEvent::Done).unwrap() {
        UpdateAction::Cleanup { bookmark, ref_name } => {
            assert_eq!(bookmark, "jj-hooks-fixup/main");
            assert_eq!(ref_name, "refs/heads/jj-hooks-fixup/main");
        }
        other => panic!("unexpected {other:?}"),
    }
    match run.resume(UpdateEvent::Done).unwrap() {
        UpdateAction::Finish(o) => {
            assert!(!o.success);
            assert_eq!(o.fixup_commit.as_deref(), Some("fix9"));
        }
        other => panic!("unexpected {other:?}"),
    }
}

#[test]
fn new_bookmark_runs_once_per_remote_ancestor() {
    let u = update(None, Some("n"), UpdateType::Add);
    let (mut run, a) = run_for_update(&u, Some(Runner::Prek), Stage::PrePush);
    match a {
        UpdateAction::QueryRemoteAncestors { revset } => {
            assert_eq!(revset, "heads(::n & ::remote_bookmarks(remote=exact:origin))")
        }
        other => panic!("unexpected {other:?}"),
    }
    let a = run.resume(UpdateEvent::Output("a1\n\na2\n".to_string())).unwrap();
    assert!(matches!(a, UpdateAction::CreateWorktree { .. }));
    let a = run.resume(UpdateEvent::Done).unwrap();
    assert!(matches!(a, UpdateAction::RunHook { ref argv } if argv[5] == "a1"));
    let a = run.resume(UpdateEvent::Exited(true)).unwrap();
    assert!(matches!(a, UpdateAction::RunHook { ref argv } if argv[5] == "a2"));
    let a = run.resume(UpdateEvent::Exited(false)).unwrap();
    assert!(matches!(a, UpdateAction::WriteTree));
    let _ = run.resume(UpdateEvent::Output("t".to_string())).unwrap();
    match run.resume(UpdateEvent::Output("t".to_string())).unwrap() {
        UpdateAction::Finish(o) => assert!(!o.success),
        other => panic!("unexpected {other:?}"),
    }
}

#[test]
fn new_bookmark_on_fresh_remote_diffs_against_parent() {
    let u = update(None, Some("n"), UpdateType::Add);
    let (mut run, _) = run_for_update(&u, Some(Runner::PreCommit), Stage::PrePush);
    let _ = run.resume(UpdateEvent::Output("\n".to_string())).unwrap();
    let a = run.resume(UpdateEvent::Done).unwrap();
    assert!(matches!(a, UpdateAction::RunHook { ref argv } if argv[5] == "n^"));
}

#[test]
fn lefthook_lists_changed_files_first() {
    let u = update(Some("o"), Some("n"), UpdateType::MoveSideways);
    let (mut run, _) = run_for_update(&u, None, Stage::PrePush);
    assert!(matches!(run.resume(UpdateEvent::Done).unwrap(), UpdateAction::ProbeConfig));
    let a = run.resume(UpdateEvent::Files(strs(&["lefthook.yml"]))).unwrap();
    match a {
        UpdateAction::ListChangedFiles { from, to } => {
            assert_eq!(from, "o");
            assert_eq!(to, "n");
        }
        other => panic!("unexpected {other:?}"),
    }
    let a = run.resume(UpdateEvent::Output("a.txt\nsrc/b.rs\n".to_string())).unwrap();
    match a {
        UpdateAction::RunHook { argv } => assert_eq!(
            argv,
            strs(&["lefthook", "run", "pre-push", "--file", "a.txt", "--file", "src/b.rs"])
        ),
        other => panic!("unexpected {other:?}"),
    }
}

#[test]
fn target_without_config_skips_hooks() {
    let u = update(Some("o"), Some("n"), UpdateType::MoveForward);
    let (mut run, _) = run_for_update(&u, None, Stage::PrePush);
    let _ = run.resume(UpdateEvent::Done).unwrap();
    match run.resume(UpdateEvent::Files(Vec::new())).unwrap() {
        UpdateAction::Finish(o) => {
            assert!(o.success);
            assert!(o.fixup_commit.is_none());
        }
        other => panic!("unexpected {other:?}"),
    }
}

#[test]
fn target_with_two_configs_is_an_error() {
    let u = update(Some("o"), Some("n"), UpdateType::MoveForward);
    let (mut run, _) = run_for_update(&u, None, Stage::PrePush);
    let _ = run.resume(UpdateEvent::Done).unwrap();
    let r = run.resume(UpdateEvent::Files(strs(&["hk.pkl", ".pre-commit-config.yaml"])));
    assert!(matches!(r, Err(JjHooksError::Parse(_))));
}

const DRY_RUN: &str = "Changes to push to origin:
  Move forward bookmark main from 1111aaaa to 2222bbbb
  Add bookmark feature to 3333cccc
  Delete bookmark tmp from 4444dddd
  Move sideways bookmark side from 5555 to 6666
  Move backward bookmark back from 7777 to 8888
Dry-run requested, not pushing.
";

#[test]
fn dry_run_report_parses_every_kind() {
    let ups = parse_git_push_dry_run(DRY_RUN).unwrap();
    assert_eq!(ups.len(), 5);
    assert_eq!(ups[0], BookmarkUpdate {
        remote: "origin".to_string(),
        bookmark: "main".to_string(),
        update_type: UpdateType::MoveForward,
        old_commit: Some("1111aaaa".to_string()),
        new_commit: Some("2222bbbb".to_string()),
    });
    assert_eq!(ups[1].update_type, UpdateType::Add);
    assert_eq!(ups[1].old_commit, None);
    assert_eq!(ups[1].new_commit.as_deref(), Some("3333cccc"));
    assert_eq!(ups[2].update_type, UpdateType::Delete);
    assert_eq!(ups[2].old_commit.as_deref(), Some("4444dddd"));
    assert_eq!(ups[2].new_commit, None);
    assert_eq!(ups[3].update_type, UpdateType::MoveSideways);
    assert_eq!(ups[4].update_type, UpdateType::MoveBackward);
    assert_eq!(ups[4].bookmark, "back");
}

#[test]
fn dry_run_report_with_nothing_to_push() {
    assert!(parse_git_push_dry_run("Nothing changed.\n").unwrap().is_empty());
    assert!(parse_git_push_dry_run("").unwrap().is_empty());
}

#[test]
fn dry_run_report_counts_duplicates_once() {
    let text = "Changes to push to origin:\n  Add bookmark f to 1\n  Add bookmark f to 1\n";
    assert_eq!(parse_git_push_dry_run(text).unwrap().len(), 1);
}

#[test]
fn dry_run_report_tracks_remotes() {
    let text = "Changes to push to origin:\n  Add bookmark f to 1\nChanges to push to upstream:\n  Add bookmark f to 1\n";
    let ups = parse_git_push_dry_run(text).unwrap();
    assert_eq!(ups.len(), 2);
    assert_eq!(ups[0].remote, "origin");
    assert_eq!(ups[1].remote, "upstream");
}

#[test]
fn dry_run_report_rejects_malformed_change() {
    let text = "Changes to push to origin:\n  Move upward bookmark f from 1 to 2\n";
    match parse_git_push_dry_run(text) {
        Err(JjHooksError::Parse(m)) => {
            assert_eq!(m, "unrecognized bookmark update line: Move upward bookmark f from 1 to 2")
        }
        other => panic!("unexpected {other:?}"),
    }
}

#[test]
fn dry_run_report_rejects_change_without_remote() {
    match parse_git_push_dry_run("  Add bookmark f to 1\n") {
        Err(JjHooksError::Parse(m)) => {
            assert_eq!(m, "bookmark update outside a remote section: Add bookmark f to 1")
        }
        other => panic!("unexpected {other:?}"),
    }
}

#[test]
fn fixup_names_scrub_bad_sequences() {
    assert_eq!(ref_safe_name("a..b"), "a._b");
    assert_eq!(ref_safe_name(".hidden"), "_hidden");
    assert_eq!(ref_safe_name("x.lock"), "x_lock");
    assert_eq!(ref_safe_name("x.lock/y"), "x_lock/y");
    assert_eq!(ref_safe_name("x.locks"), "x.locks");
    assert_eq!(ref_safe_name("a@{b"), "a@_b");
    assert_eq!(ref_safe_name("a//b/"), "a/_b_");
    assert_eq!(ref_safe_name("/a/.b."), "_a/_b_");
    assert_eq!(ref_safe_name("v1.0"), "v1.0");
    assert_eq!(ref_safe_name(""), "_");
    assert_eq!(fixup_ref("release.lock"), "refs/heads/jj-hooks-fixup/release_lock");
}

#[test]
fn sanitizing_twice_changes_nothing_more() {
    let once = ref_safe_name("revset:@- x");
    assert_eq!(once, "revset_@-_x");
    assert_eq!(ref_safe_name(&once), once);
}
