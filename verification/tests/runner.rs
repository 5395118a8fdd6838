use jj_hooks::cli::{RunnerArg, StageArg, requested_runner};
use jj_hooks::error::JjHooksError;
use jj_hooks::runner::{Runner, Stage, hook_command, lefthook_command};

fn names(v: &[&str]) -> Vec<String> {
    v.iter().map(|s| s.to_string()).collect()
}

#[test]
fn runner_bins() {
    assert_eq!(Runner::PreCommit.bin(), "pre-commit");
    assert_eq!(Runner::Prek.bin(), "prek");
    assert_eq!(Runner::Lefthook.bin(), "lefthook");
    assert_eq!(Runner::Hk.bin(), "hk");
}

#[test]
fn stage_names() {
    assert_eq!(Stage::PreCommit.as_str(), "pre-commit");
    assert_eq!(Stage::PrePush.as_str(), "pre-push");
}

#[test]
fn pre_commit_command_uses_ref_bounds() {
    let argv = hook_command(Runner::PreCommit, Stage::PrePush, "abc", "def");
    assert_eq!(
        argv,
        names(&[
            "pre-commit",
            "run",
            "--hook-stage",
            "pre-push",
            "--from-ref",
            "abc",
            "--to-ref",
            "def"
        ])
    );
}

#[test]
fn prek_command_matches_pre_commit_shape() {
    let argv = hook_command(Runner::Prek, Stage::PreCommit, "a", "b");
    assert_eq!(
        argv,
        names(&["prek", "run", "--hook-stage", "pre-commit", "--from-ref", "a", "--to-ref", "b"])
    );
}

#[test]
fn hk_command_takes_positional_stage() {
    let argv = hook_command(Runner::Hk, Stage::PrePush, "a", "b");
    assert_eq!(argv, names(&["hk", "run", "pre-push"]));
}

#[test]
fn lefthook_command_lists_files() {
    let argv = lefthook_command(Stage::PrePush, &names(&["src/a.rs", "b.txt"]));
    assert_eq!(
        argv,
        names(&["lefthook", "run", "pre-push", "--file", "src/a.rs", "--file", "b.txt"])
    );
}

#[test]
fn lefthook_command_without_files_has_no_flags() {
    let argv = lefthook_command(Stage::PreCommit, &Vec::new());
    assert_eq!(argv, names(&["lefthook", "run", "pre-commit"]));
}

#[test]
fn autodetect_none() {
    assert!(matches!(Runner::autodetect(&names(&["README", "Cargo.toml"])), Ok(None)));
    assert!(matches!(Runner::autodetect(&Vec::new()), Ok(None)));
}

#[test]
fn autodetect_each_runner() {
    assert!(matches!(Runner::autodetect(&names(&["hk.pkl"])), Ok(Some(Runner::Hk))));
    for f in ["lefthook.yml", "lefthook.yaml", ".lefthook.yml", ".lefthook.yaml"] {
        assert!(matches!(Runner::autodetect(&names(&[f])), Ok(Some(Runner::Lefthook))), "{f}");
    }
    for f in [".pre-commit-config.yaml", ".pre-commit-config.yml"] {
        assert!(matches!(Runner::autodetect(&names(&[f, "x"])), Ok(Some(Runner::PreCommit))), "{f}");
    }
}

#[test]
fn autodetect_two_configs_of_one_runner_is_fine() {
    let r = Runner::autodetect(&names(&["lefthook.yml", ".lefthook.yaml"]));
    assert!(matches!(r, Ok(Some(Runner::Lefthook))));
}

#[test]
fn autodetect_ambiguous_names_all_runners() {
    let r = Runner::autodetect(&names(&[".pre-commit-config.yaml", "lefthook.yml", "hk.pkl"]));
    match r {
        Err(JjHooksError::Parse(m)) => assert_eq!(
            m,
            "multiple hook-runner configs found at workspace root: [\"lefthook\", \"pre-commit\", \"hk\"]. Use --runner to pick one."
        ),
        other => panic!("unexpected: {other:?}"),
    }
    let r = Runner::autodetect(&names(&["lefthook.yml", ".pre-commit-config.yml"]));
    match r {
        Err(JjHooksError::Parse(m)) => assert_eq!(
            m,
            "multiple hook-runner configs found at workspace root: [\"lefthook\", \"pre-commit\"]. Use --runner to pick one."
        ),
        other => panic!("unexpected: {other:?}"),
    }
}

#[test]
fn candidate_files_cover_all_configs() {
    assert_eq!(
        Runner::candidate_files(),
        vec![
            "lefthook.yml",
            "lefthook.yaml",
            ".lefthook.yml",
            ".lefthook.yaml",
            ".pre-commit-config.yaml",
            ".pre-commit-config.yml",
            "hk.pkl"
        ]
    );
}

#[test]
fn cli_values_convert() {
    assert_eq!(Runner::from(RunnerArg::PreCommit), Runner::PreCommit);
    assert_eq!(Runner::from(RunnerArg::Prek), Runner::Prek);
    assert_eq!(Runner::from(RunnerArg::Lefthook), Runner::Lefthook);
    assert_eq!(Runner::from(RunnerArg::Hk), Runner::Hk);
    assert_eq!(Stage::from(StageArg::PreCommit), Stage::PreCommit);
    assert_eq!(Stage::from(StageArg::PrePush), Stage::PrePush);
    assert_eq!(requested_runner(Some(RunnerArg::Hk)), Some(Runner::Hk));
    assert_eq!(requested_runner(None), None);
}

#[test]
fn error_messages() {
    assert_eq!(JjHooksError::Io("x".to_string()).message(), "I/O error: x");
    assert_eq!(JjHooksError::Parse("y".to_string()).message(), "parse error: y");
    assert_eq!(
        JjHooksError::JjFailed { status: 1, stderr: "z".to_string() }.message(),
        "command failed: z"
    );
}
