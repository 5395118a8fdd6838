//! The command-line model of the `jj-hooks` binary: global options and the
//! subcommands with their options.

use vstd::prelude::*;

use crate::runner::{Runner, Stage};

verus! {

/// The parsed command line.
#[derive(Debug)]
pub struct Cli {
    /// Hook runner to use. Overrides detection.
    pub runner: Option<RunnerArg>,
    /// Log level filter (e.g. `info`, `debug`, `warn`).
    pub log_level: String,
    pub command: Command,
}

/// The subcommands.
#[derive(Debug)]
pub enum Command {
    /// Run hooks then push. Mirrors `jj git push` flags after `--`.
    Push {
        /// Pass `--dry-run` through to `jj git push`.
        dry_run: bool,
        /// Advance the local bookmark to the fixup commit when hooks modify
        /// files. Reads `jj-hooks.advance-bookmarks` config when not given.
        advance_bookmarks: bool,
        /// Hook stage to run. Defaults to `pre-push`.
        stage: StageArg,
        /// Arguments forwarded to `jj git push`.
        push_args: Vec<String>,
    },
    /// Run hooks against a revset without pushing.
    Run {
        /// Hook stage to run. Defaults to `pre-commit`.
        stage: StageArg,
        /// Revset to check. Defaults to `@`.
        revset: String,
    },
    /// Interactive setup: install the `jj push` alias and configure
    /// defaults.
    Init,
}

/// The runner named on the command line.
#[derive(Debug, Clone, Copy, PartialEq, Eq, Structural)]
pub enum RunnerArg {
    PreCommit,
    Prek,
    Lefthook,
    Hk,
}

/// The stage named on the command line.
#[derive(Debug, Clone, Copy, PartialEq, Eq, Structural)]
pub enum StageArg {
    PreCommit,
    PrePush,
}

/// The runner that a command-line value names.
pub open spec fn runner_of_arg(a: RunnerArg) -> Runner {
    match a {
        RunnerArg::PreCommit => Runner::PreCommit,
        RunnerArg::Prek => Runner::Prek,
        RunnerArg::Lefthook => Runner::Lefthook,
        RunnerArg::Hk => Runner::Hk,
    }
}

/// The stage that a command-line value names.
pub open spec fn stage_of_arg(a: StageArg) -> Stage {
    match a {
        StageArg::PreCommit => Stage::PreCommit,
        StageArg::PrePush => Stage::PrePush,
    }
}

impl From<RunnerArg> for Runner {
    fn from(value: RunnerArg) -> (r: Runner) {
        match value {
            RunnerArg::PreCommit => Runner::PreCommit,
            RunnerArg::Prek => Runner::Prek,
            RunnerArg::Lefthook => Runner::Lefthook,
            RunnerArg::Hk => Runner::Hk,
        }
    }
}

impl vstd::std_specs::convert::FromSpecImpl<RunnerArg> for Runner {
    open spec fn obeys_from_spec() -> bool {
        true
    }

    open spec fn from_spec(v: RunnerArg) -> Runner {
        runner_of_arg(v)
    }
}

impl From<StageArg> for Stage {
    fn from(value: StageArg) -> (r: Stage) {
        match value {
            StageArg::PreCommit => Stage::PreCommit,
            StageArg::PrePush => Stage::PrePush,
        }
    }
}

impl vstd::std_specs::convert::FromSpecImpl<StageArg> for Stage {
    open spec fn obeys_from_spec() -> bool {
        true
    }

    open spec fn from_spec(v: StageArg) -> Stage {
        stage_of_arg(v)
    }
}

/// The runner to pass on: the one named on the command line, if any.
pub fn requested_runner(arg: Option<RunnerArg>) -> (r: Option<Runner>)
    ensures
        r == match arg {
            Some(a) => Some(runner_of_arg(a)),
            None => None::<Runner>,
        },
{
    match arg {
        Some(a) => Some(Runner::from(a)),
        None => None,
    }
}

} // verus!
