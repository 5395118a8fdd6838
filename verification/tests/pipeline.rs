use jj_hooks::bookmark_updates::{BookmarkUpdate, UpdateType};
use jj_hooks::hooks::HookOutcome;
use jj_hooks::push::{
    ChecksAction, ChecksEvent, PushReport, advance_bookmarks_from_config, advance_command,
    advance_config_command, maybe_advance_bookmarks, push_command, run_checks,
};
use jj_hooks::revset::{RevsetAction, run_for_revset, run_for_revset_outcome};
use jj_hooks::runner::{Runner, Stage};

fn strs(v: &[&str]) -> Vec<String> {
    v.iter().map(|s| s.to_string()).collect()
}

fn upd(name: &str, t: UpdateType) -> BookmarkUpdate {
    BookmarkUpdate {
        remote: "origin".to_string(),
        bookmark: name.to_string(),
        update_type: t,
        old_commit: Some("o".to_string()),
        new_commit: Some("n".to_string()),
    }
}

fn outcome(success: bool, fixup: Option<&str>) -> HookOutcome {
    HookOutcome { success, fixup_commit: fixup.map(|s| s.to_string()) }
}

fn report(entries: Vec<(BookmarkUpdate, HookOutcome)>) -> PushReport {
    PushReport { per_bookmark: entries, skipped: false }
}

#[test]
fn report_flags() {
    let r = report(vec![
        (upd("a", UpdateType::MoveForward), outcome(true, None)),
        (upd("b", UpdateType::Add), outcome(false, None)),
    ]);
    assert!(r.any_failure());
    assert!(!r.any_fixup());
    assert!(!r.push_allowed());

    let r = report(vec![(upd("a", UpdateType::MoveForward), outcome(true, Some("f")))]);
    assert!(!r.any_failure());
    assert!(r.any_fixup());
    assert!(!r.push_allowed());

    let r = report(vec![(upd("a", UpdateType::MoveForward), outcome(true, None))]);
    assert!(r.push_allowed());

    let r = PushReport { per_bookmark: Vec::new(), skipped: true };
    assert!(r.push_allowed());
}

#[test]
fn advance_only_when_asked_and_fixed() {
    let r = report(vec![
        (upd("a", UpdateType::MoveForward), outcome(true, Some("f1"))),
        (upd("b", UpdateType::Add), outcome(false, None)),
        (upd("c", UpdateType::Add), outcome(false, Some("f3"))),
    ]);
    assert!(maybe_advance_bookmarks(&r, false).is_empty());
    assert_eq!(
        maybe_advance_bookmarks(&r, true),
        vec![("a".to_string(), "f1".to_string()), ("c".to_string(), "f3".to_string())]
    );
    assert_eq!(
        advance_command("a", "f1"),
        strs(&["bookmark", "set", "a", "-r", "f1", "--allow-backwards"])
    );
}

#[test]
fn push_command_forwards_args() {
    let args = strs(&["-b", "main"]);
    assert_eq!(push_command(&args, false), strs(&["git", "push", "-b", "main"]));
    assert_eq!(push_command(&args, true), strs(&["git", "push", "-b", "main", "--dry-run"]));
}

#[test]
fn advance_config_value() {
    assert_eq!(advance_config_command(), strs(&["config", "get", "jj-hooks.advance-bookmarks"]));
    assert!(advance_bookmarks_from_config(&Some("true\n".to_string())));
    assert!(!advance_bookmarks_from_config(&Some("false\n".to_string())));
    assert!(!advance_bookmarks_from_config(&Some("TRUE".to_string())));
    assert!(!advance_bookmarks_from_config(&None));
}

#[test]
fn checks_skip_when_nothing_to_push() {
    let (mut run, a) = run_checks(None, Stage::PrePush, &strs(&["-b", "main"]));
    match a {
        ChecksAction::DryRun { argv } => assert_eq!(argv, strs(&["git", "push", "--dry-run", "-b", "main"])),
        other => panic!("unexpected {other:?}"),
    }
    match run.resume(ChecksEvent::DryRunOutput("Nothing changed.\n".to_string())).unwrap() {
        ChecksAction::Finish(rep) => {
            assert!(rep.skipped);
            assert!(rep.per_bookmark.is_empty());
        }
        other => panic!("unexpected {other:?}"),
    }
}

#[test]
fn checks_skip_delete_only_push() {
    let (mut run, _) = run_checks(Some(Runner::PreCommit), Stage::PrePush, &Vec::new());
    let out = "Changes to push to origin:\n  Delete bookmark tmp from abc\n";
    match run.resume(ChecksEvent::DryRunOutput(out.to_string())).unwrap() {
        ChecksAction::Finish(rep) => assert!(rep.skipped),
        other => panic!("unexpected {other:?}"),
    }
}

#[test]
fn checks_hand_out_non_deletes_in_order() {
    let (mut run, _) = run_checks(Some(Runner::Hk), Stage::PreCommit, &Vec::new());
    let out = "Changes to push to origin:\n  Move forward bookmark main from 1 to 2\n  Delete bookmark tmp from 3\n  Add bookmark feature to 4\n";
    let a = run.resume(ChecksEvent::DryRunOutput(out.to_string())).unwrap();
    match a {
        ChecksAction::Check { update, runner, stage } => {
            assert_eq!(update.bookmark, "main");
            assert_eq!(runner, Some(Runner::Hk));
            assert_eq!(stage, Stage::PreCommit);
        }
        other => panic!("unexpected {other:?}"),
    }
    let a = run.resume(ChecksEvent::Checked(outcome(true, None))).unwrap();
    match a {
        ChecksAction::Check { update, .. } => assert_eq!(update.bookmark, "feature"),
        other => panic!("unexpected {other:?}"),
    }
    match run.resume(ChecksEvent::Checked(outcome(false, None))).unwrap() {
        ChecksAction::Finish(rep) => {
            assert!(!rep.skipped);
            assert_eq!(rep.per_bookmark.len(), 2);
            assert_eq!(rep.per_bookmark[0].0.bookmark, "main");
            assert!(rep.per_bookmark[0].1.success);
            assert_eq!(rep.per_bookmark[1].0.bookmark, "feature");
            assert!(!rep.per_bookmark[1].1.success);
            assert!(!rep.push_allowed());
        }
        other => panic!("unexpected {other:?}"),
    }
}

#[test]
fn checks_report_parse_errors() {
    let (mut run, _) = run_checks(None, Stage::PrePush, &Vec::new());
    let r = run.resume(ChecksEvent::DryRunOutput("  Add bookmark x to 1\n".to_string()));
    assert!(r.is_err());
}

#[test]
fn revset_check_synthesizes_update() {
    let (mut run, a) = run_for_revset_outcome("@-");
    match a {
        RevsetAction::Query { argv } => assert_eq!(
            argv,
            strs(&["log", "--no-graph", "-r", "@-", "-T", "commit_id", "--limit", "1", "--ignore-working-copy"])
        ),
        other => panic!("unexpected {other:?}"),
    }
    match run.resume("abc123\n") {
        RevsetAction::Query { argv } => assert_eq!(argv[3], "abc123-"),
        other => panic!("unexpected {other:?}"),
    }
    match run.resume("def456\n") {
        RevsetAction::Check(u) => {
            assert_eq!(u.remote, "<local>");
            assert_eq!(u.bookmark, "revset:@-");
            assert_eq!(u.update_type, UpdateType::MoveForward);
            assert_eq!(u.old_commit.as_deref(), Some("def456"));
            assert_eq!(u.new_commit.as_deref(), Some("abc123"));
        }
        other => panic!("unexpected {other:?}"),
    }
}

#[test]
fn revset_check_of_empty_revset() {
    let (mut run, _) = run_for_revset_outcome("none()");
    assert!(matches!(run.resume("  \n"), RevsetAction::Empty));
}

#[test]
fn revset_exit_codes() {
    assert_eq!(run_for_revset(&None), 2);
    assert_eq!(run_for_revset(&Some(outcome(true, None))), 0);
    assert_eq!(run_for_revset(&Some(outcome(false, None))), 1);
    assert_eq!(run_for_revset(&Some(outcome(true, Some("f")))), 1);
}
