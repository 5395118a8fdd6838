//! Checking a revset without pushing: its latest commit is the target and
//! that commit's parent the diff base, as if a bookmark moved forward from
//! the parent to the target.

use vstd::prelude::*;

use crate::bookmark_updates::{BookmarkUpdate, UpdateType, UpdateView};
use crate::hooks::HookOutcome;
use crate::text::{cat, to_owned_string, trim, trimmed, views};

verus! {

/// The `jj` command line that prints the commit id of the latest commit of
/// `rev`.
pub open spec fn latest_commit_argv(rev: Seq<char>) -> Seq<Seq<char>> {
    seq![
        "log"@,
        "--no-graph"@,
        "-r"@,
        rev,
        "-T"@,
        "commit_id"@,
        "--limit"@,
        "1"@,
        "--ignore-working-copy"@,
    ]
}

/// The update that stands for checking `revset`: from `parent` to `target`,
/// on no remote.
pub open spec fn revset_update(revset: Seq<char>, target: Seq<char>, parent: Seq<char>) -> UpdateView {
    UpdateView {
        remote: "<local>"@,
        bookmark: "revset:"@ + revset,
        update_type: UpdateType::MoveForward,
        old_commit: Some(parent),
        new_commit: Some(target),
    }
}

/// The exit code of a revset check: 2 for an empty revset, 0 when every
/// hook passed without modifying files, 1 otherwise.
pub open spec fn revset_exit(outcome: Option<(bool, bool)>) -> u8 {
    match outcome {
        None => 2,
        Some((success, fixed)) => if success && !fixed {
            0
        } else {
            1
        },
    }
}

fn latest_commit_command(rev: &str) -> (r: Vec<String>)
    ensures
        views(r@) == latest_commit_argv(rev@),
{
    let r = vec![
        to_owned_string("log"),
        to_owned_string("--no-graph"),
        to_owned_string("-r"),
        to_owned_string(rev),
        to_owned_string("-T"),
        to_owned_string("commit_id"),
        to_owned_string("--limit"),
        to_owned_string("1"),
        to_owned_string("--ignore-working-copy"),
    ];
    assert(views(r@) =~= latest_commit_argv(rev@));
    r
}

/// What the caller is asked to do next.
#[derive(Debug)]
pub enum RevsetAction {
    /// Run `jj` with these arguments and answer with its output.
    Query { argv: Vec<String> },
    /// The revset is empty: nothing to check.
    Empty,
    /// Run the hooks for this update ([`crate::hooks::run_for_update`]).
    Check(BookmarkUpdate),
}

/// The lookup of a revset's target and diff base.
pub struct RevsetRun {
    revset: String,
    target: Option<String>,
}

impl RevsetRun {
    /// The revset being checked.
    pub closed spec fn revset_of(&self) -> Seq<char> {
        self.revset@
    }

    /// The target commit, once found.
    pub closed spec fn target_of(&self) -> Option<Seq<char>> {
        match self.target {
            Some(t) => Some(t@),
            None => None,
        }
    }

    /// Takes the output of the last query. After the target query, an
    /// empty output means an empty revset; otherwise the parent of the
    /// target is queried. After the parent query, the update from the
    /// parent to the target is handed out.
    pub fn resume(&mut self, output: &str) -> (r: RevsetAction)
        ensures
            final(self).revset_of() == old(self).revset_of(),
            match old(self).target_of() {
                None => if trimmed(output@).len() == 0 {
                    r is Empty && final(self).target_of() == old(self).target_of()
                } else {
                    &&& final(self).target_of() == Some(trimmed(output@))
                    &&& r matches RevsetAction::Query { argv } && views(argv@) == latest_commit_argv(
                        trimmed(output@) + "-"@,
                    )
                },
                Some(t) => {
                    &&& final(self).target_of() == old(self).target_of()
                    &&& r matches RevsetAction::Check(u) && u@ == revset_update(
                        old(self).revset_of(),
                        t,
                        trimmed(output@),
                    )
                },
            },
    {
        match &self.target {
            None => {
                let t = trim(output);
                if t.as_str().unicode_len() == 0 {
                    return RevsetAction::Empty;
                }
                let rev = cat(t.as_str(), "-");
                let argv = latest_commit_command(rev.as_str());
                self.target = Some(t);
                RevsetAction::Query { argv }
            },
            Some(t) => {
                let parent = trim(output);
                let update = BookmarkUpdate {
                    remote: to_owned_string("<local>"),
                    bookmark: cat("revset:", self.revset.as_str()),
                    update_type: UpdateType::MoveForward,
                    old_commit: Some(parent),
                    new_commit: Some(t.clone()),
                };
                RevsetAction::Check(update)
            },
        }
    }
}

/// Starts the check of `revset` without pushing and names the first query:
/// the latest commit of the revset.
pub fn run_for_revset_outcome(revset: &str) -> (r: (RevsetRun, RevsetAction))
    ensures
        r.0.revset_of() == revset@,
        r.0.target_of() is None,
        r.1 matches RevsetAction::Query { argv } && views(argv@) == latest_commit_argv(revset@),
{
    let run = RevsetRun { revset: to_owned_string(revset), target: None };
    (run, RevsetAction::Query { argv: latest_commit_command(revset) })
}

/// The exit code of a revset check from its outcome (none for an empty
/// revset).
pub fn run_for_revset(outcome: &Option<HookOutcome>) -> (r: u8)
    ensures
        r == revset_exit(match outcome {
            None => None,
            Some(o) => Some((o.success, o.fixup_commit is Some)),
        }),
        outcome is None ==> r == 2,
        outcome matches Some(o) ==> (r == 0 <==> (o.success && o.fixup_commit is None)),
        outcome is Some ==> r <= 1,
{
    match outcome {
        None => 2,
        Some(o) => if o.success && o.fixup_commit.is_none() {
            0
        } else {
            1
        },
    }
}

/// The exit code of a revset check: 2 for an empty revset; for a
/// non-empty one, 0 exactly when every hook passed and no fixup commit was
/// made, else 1: a failed hook gives 1 whatever the fixup, and a fixup
/// commit gives 1 whatever the hooks did.
pub proof fn lemma_revset_exit_codes(success: bool, fixed: bool)
    ensures
        revset_exit(None) == 2,
        (revset_exit(Some((success, fixed))) == 0) <==> (success && !fixed),
        revset_exit(Some((success, fixed))) == 0 || revset_exit(Some((success, fixed))) == 1,
        !success ==> revset_exit(Some((success, fixed))) == 1,
        fixed ==> revset_exit(Some((success, fixed))) == 1,
{
}

} // verus!
