//! Per-bookmark hook execution.
//!
//! For each bookmark update being pushed:
//! 1. Resolve the commits to diff against: the remote's old commit for a
//!    moved bookmark, or, for a new bookmark, the heads of its ancestors that
//!    the remote already has (its parent when there are none).
//! 2. Create an ephemeral detached worktree at the new commit.
//! 3. Pick the runner (the one asked for, or the one whose configuration the
//!    target commit holds) and run it against each diff base in turn.
//!    Modifications accumulate in the same worktree.
//! 4. If the worktree's tree then differs from the target commit's tree,
//!    build a fixup commit, anchor it under
//!    `refs/heads/jj-hooks-fixup/<bookmark>`, import it into jj, and remove
//!    the temporary bookmark and ref again.
//!
//! The work outside the process (jj, git, the hooks) is done by the caller:
//! [`run_for_update`] starts a run and names the first action, and
//! [`UpdateRun::resume`] takes the result of each action and names the next,
//! until [`UpdateAction::Finish`].

use vstd::prelude::*;

use crate::bookmark_updates::{BookmarkUpdate, UpdateView, opt_view};
use crate::error::JjHooksError;
use crate::runner::{
    Runner, Stage, autodetect_result, hook_argv, hook_command, lefthook_argv, lefthook_command,
};
use crate::text::{
    cat, cat3, nonblank_lines, nonblank_lines_seq, str_eq, to_owned_string, trim, trimmed, views,
};

verus! {

/// What the hooks did for one bookmark update.
#[derive(Debug, Clone)]
pub struct HookOutcome {
    /// All hook runs for this bookmark exited 0.
    pub success: bool,
    /// Commit id of the fixup commit if the hook(s) modified files.
    pub fixup_commit: Option<String>,
}

/// Whether `c` may not stand in a git ref name.
pub open spec fn bad_ref_char(c: char) -> bool {
    ||| c < ' '
    ||| c == '\u{7f}'
    ||| c == ' '
    ||| c == '~'
    ||| c == '^'
    ||| c == ':'
    ||| c == '?'
    ||| c == '*'
    ||| c == '['
    ||| c == '\\'
}

/// Whether a path component of `s` ends at index `i + 5` with `.lock`,
/// which git refuses.
pub open spec fn ends_lock(s: Seq<char>, i: int) -> bool {
    &&& 0 <= i && i + 5 <= s.len()
    &&& s[i] == '.' && s[i + 1] == 'l' && s[i + 2] == 'o' && s[i + 3] == 'c' && s[i + 4] == 'k'
    &&& (i + 5 == s.len() || s[i + 5] == '/')
}

/// Whether the character at index `i` of `s` would make the name one that
/// git refuses: a refused character; a `.` that starts a component, follows
/// a `.`, ends the name or begins a final `.lock`; a `{` after `@`; a `/`
/// that starts or ends the name or follows a `/`.
pub open spec fn must_replace(s: Seq<char>, i: int) -> bool {
    let c = s[i];
    ||| bad_ref_char(c)
    ||| c == '.' && (i == 0 || s[i - 1] == '/' || s[i - 1] == '.' || i == s.len() - 1
        || ends_lock(s, i))
    ||| c == '{' && i > 0 && s[i - 1] == '@'
    ||| c == '/' && (i == 0 || s[i - 1] == '/' || i == s.len() - 1)
}

/// `s` made fit to end a git ref name: each character that
/// [`must_replace`] names becomes `_`, and an empty name becomes `_`.
pub open spec fn ref_safe(s: Seq<char>) -> Seq<char> {
    if s.len() == 0 {
        seq!['_']
    } else {
        Seq::new(s.len(), |i: int| if must_replace(s, i) { '_' } else { s[i] })
    }
}

/// Whether the pair of characters `a`, `b` may not stand together in a git
/// ref name: `..`, `@{`, `//`, or a component that starts with `.`.
pub open spec fn bad_pair(a: char, b: char) -> bool {
    ||| a == '.' && b == '.'
    ||| a == '@' && b == '{'
    ||| a == '/' && b == '/'
    ||| a == '/' && b == '.'
}

/// Whether git accepts `r` as a ref name (the rules of
/// `git check-ref-format`): not empty and not `@`; no refused character;
/// no `..`, `@{` or `//`; no component that starts with `.` or ends with
/// `.lock`; not starting with `/` or `.`, not ending with `/` or `.`.
pub open spec fn valid_ref_name(r: Seq<char>) -> bool {
    &&& r.len() > 0
    &&& r != seq!['@']
    &&& r[0] != '/' && r[0] != '.'
    &&& r.last() != '/' && r.last() != '.'
    &&& forall|i: int| 0 <= i < r.len() ==> !bad_ref_char(#[trigger] r[i])
    &&& forall|i: int| 0 <= i < r.len() - 1 ==> !bad_pair(#[trigger] r[i], r[i + 1])
    &&& forall|i: int| !ends_lock(r, i)
}

/// The jj bookmark under which a fixup commit for `bookmark` is imported.
pub open spec fn fixup_bookmark_name(bookmark: Seq<char>) -> Seq<char> {
    "jj-hooks-fixup/"@ + ref_safe(bookmark)
}

/// The git ref where a fixup commit for `bookmark` is anchored.
pub open spec fn fixup_ref_name(bookmark: Seq<char>) -> Seq<char> {
    "refs/heads/"@ + fixup_bookmark_name(bookmark)
}

/// The description of the fixup commit for `bookmark`.
pub open spec fn fixup_message_text(bookmark: Seq<char>) -> Seq<char> {
    "jj-hooks: autofixes for "@ + bookmark
}

/// The revset of the heads of the ancestors of `new` that `remote` already
/// has.
pub open spec fn remote_ancestors_revset(new: Seq<char>, remote: Seq<char>) -> Seq<char> {
    "heads(::"@ + new + " & ::remote_bookmarks(remote=exact:"@ + remote + "))"@
}

/// The diff bases for a new bookmark, from the output of the ancestor
/// query: its commit ids, or the parent of `new` when there are none.
pub open spec fn bases_from_ancestors(new: Seq<char>, output: Seq<char>) -> Seq<Seq<char>> {
    if nonblank_lines_seq(output).len() == 0 {
        seq![new + "^"@]
    } else {
        nonblank_lines_seq(output)
    }
}

fn is_bad_ref_char(c: char) -> (r: bool)
    ensures
        r == bad_ref_char(c),
{
    c < ' ' || c == '\u{7f}' || c == ' ' || c == '~' || c == '^' || c == ':' || c == '?' || c
        == '*' || c == '[' || c == '\\'
}

/// Whether the character at index `i` of `s` has to be replaced.
fn must_replace_at(s: &str, i: usize) -> (r: bool)
    requires
        i < s@.len(),
    ensures
        r == must_replace(s@, i as int),
{
    let n = s.unicode_len();
    let c = s.get_char(i);
    if is_bad_ref_char(c) {
        return true;
    }
    if c == '.' {
        if i == 0 || i + 1 == n {
            return true;
        }
        let p = s.get_char(i - 1);
        if p == '/' || p == '.' {
            return true;
        }
        return n - i >= 5 && s.get_char(i + 1) == 'l' && s.get_char(i + 2) == 'o' && s.get_char(i + 3)
            == 'c' && s.get_char(i + 4) == 'k' && (n - i == 5 || s.get_char(i + 5) == '/');
    }
    if c == '{' {
        return i > 0 && s.get_char(i - 1) == '@';
    }
    if c == '/' {
        return i == 0 || i + 1 == n || s.get_char(i - 1) == '/';
    }
    false
}

/// `s` made fit to end a git ref name: the characters that git refuses,
/// and those that would form a sequence that git refuses, replaced by `_`
/// (see [`must_replace`]); an empty name becomes `_`.
pub fn ref_safe_name(s: &str) -> (r: String)
    ensures
        r@ == ref_safe(s@),
{
    proof {
        reveal_strlit("_");
    }
    let n = s.unicode_len();
    if n == 0 {
        let r = to_owned_string("_");
        assert(r@ =~= seq!['_']);
        return r;
    }
    let mut out = String::new();
    let mut i: usize = 0;
    while i < n
        invariant
            n == s@.len(),
            i <= n,
            out@.len() == i,
            forall|k: int| 0 <= k < i ==> #[trigger] out@[k] == if must_replace(s@, k) {
                '_'
            } else {
                s@[k]
            },
        decreases n - i,
    {
        let ghost prev = out@;
        proof {
            reveal_strlit("_");
        }
        if must_replace_at(s, i) {
            out.append("_");
            assert(out@ =~= prev.push('_'));
        } else {
            out.append(s.substring_char(i, i + 1));
            assert(s@.subrange(i as int, i + 1) =~= seq![s@[i as int]]);
            assert(out@ =~= prev.push(s@[i as int]));
        }
        assert forall|k: int| 0 <= k < i + 1 implies #[trigger] out@[k] == if must_replace(s@, k) {
            '_'
        } else {
            s@[k]
        } by {
            if k < i {
                assert(out@[k] == prev[k]);
            }
        }
        i = i + 1;
    }
    assert(out@ =~= ref_safe(s@));
    out
}

/// The jj bookmark name that `jj git import` gives the ref of
/// [`fixup_ref`].
pub fn fixup_bookmark(bookmark: &str) -> (r: String)
    ensures
        r@ == fixup_bookmark_name(bookmark@),
{
    let safe = ref_safe_name(bookmark);
    cat("jj-hooks-fixup/", safe.as_str())
}

/// The git ref where a fixup commit gets anchored for a given bookmark.
/// Lives under `refs/heads/` so `jj git import` picks it up as a bookmark.
/// The bookmark is made fit for a ref name first ([`ref_safe_name`]), so
/// that the ref is always one that git accepts.
pub fn fixup_ref(bookmark: &str) -> (r: String)
    ensures
        r@ == fixup_ref_name(bookmark@),
{
    let b = fixup_bookmark(bookmark);
    cat("refs/heads/", b.as_str())
}

/// The state of the work for one bookmark update.
#[derive(Debug, Clone, Copy, PartialEq, Eq, Structural)]
pub enum Phase {
    AwaitAncestors,
    AwaitWorktree,
    AwaitProbe,
    AwaitChangedFiles,
    AwaitHook,
    AwaitTree,
    AwaitParentTree,
    AwaitCommit,
    AwaitRef,
    AwaitImport,
    AwaitCleanup,
    Finished,
}

/// What the caller is asked to do next.
#[derive(Debug)]
pub enum UpdateAction {
    /// Run `jj log --no-graph -r <revset> -T 'commit_id ++ "\n"'
    /// --ignore-working-copy` and answer with its output.
    QueryRemoteAncestors { revset: String },
    /// Create a detached worktree of the primary git directory at `commit`
    /// and answer `Done`. Later actions run inside it.
    CreateWorktree { commit: String },
    /// Answer with the names, among [`Runner::candidate_files`], of the
    /// files present at the worktree root.
    ProbeConfig,
    /// Run `git diff --name-only --diff-filter=ACMR <from>..<to>` in the
    /// worktree and answer with its output.
    ListChangedFiles { from: String, to: String },
    /// Run this command in the worktree and answer whether it exited 0.
    RunHook { argv: Vec<String> },
    /// Stage everything in the worktree (`git add -A`), write its tree
    /// (`git write-tree`) and answer with the output.
    WriteTree,
    /// Run `git rev-parse <rev>` and answer with its output.
    ReadTree { rev: String },
    /// Build a commit of `tree` with parent `parent` and this message
    /// through the primary git directory (`git commit-tree`) and answer with
    /// the output.
    CommitTree { tree: String, parent: String, message: String },
    /// Point `ref_name` at `commit` in the primary git directory and answer
    /// `Done`.
    UpdateRef { ref_name: String, commit: String },
    /// Run `jj git import --ignore-working-copy` and answer `Done`.
    Import,
    /// Forget the jj bookmark and delete the git ref, ignoring failures of
    /// either, and answer `Done`.
    Cleanup { bookmark: String, ref_name: String },
    /// The run is over.
    Finish(HookOutcome),
}

/// The result of an action.
#[derive(Debug)]
pub enum UpdateEvent {
    Output(String),
    Files(Vec<String>),
    Exited(bool),
    Done,
}

/// The abstract value of an [`UpdateAction`].
pub enum ActionView {
    QueryRemoteAncestors(Seq<char>),
    CreateWorktree(Seq<char>),
    ProbeConfig,
    ListChangedFiles(Seq<char>, Seq<char>),
    RunHook(Seq<Seq<char>>),
    WriteTree,
    ReadTree(Seq<char>),
    CommitTree(Seq<char>, Seq<char>, Seq<char>),
    UpdateRef(Seq<char>, Seq<char>),
    Import,
    Cleanup(Seq<char>, Seq<char>),
    Finish(bool, Option<Seq<char>>),
}

impl View for UpdateAction {
    type V = ActionView;

    open spec fn view(&self) -> ActionView {
        match self {
            UpdateAction::QueryRemoteAncestors { revset } => ActionView::QueryRemoteAncestors(
                revset@,
            ),
            UpdateAction::CreateWorktree { commit } => ActionView::CreateWorktree(commit@),
            UpdateAction::ProbeConfig => ActionView::ProbeConfig,
            UpdateAction::ListChangedFiles { from, to } => ActionView::ListChangedFiles(
                from@,
                to@,
            ),
            UpdateAction::RunHook { argv } => ActionView::RunHook(views(argv@)),
            UpdateAction::WriteTree => ActionView::WriteTree,
            UpdateAction::ReadTree { rev } => ActionView::ReadTree(rev@),
            UpdateAction::CommitTree { tree, parent, message } => ActionView::CommitTree(
                tree@,
                parent@,
                message@,
            ),
            UpdateAction::UpdateRef { ref_name, commit } => ActionView::UpdateRef(
                ref_name@,
                commit@,
            ),
            UpdateAction::Import => ActionView::Import,
            UpdateAction::Cleanup { bookmark, ref_name } => ActionView::Cleanup(
                bookmark@,
                ref_name@,
            ),
            UpdateAction::Finish(o) => ActionView::Finish(o.success, opt_view(o.fixup_commit)),
        }
    }
}

/// The work for one bookmark update, between two actions.
pub struct UpdateRun {
    update: BookmarkUpdate,
    new_commit: String,
    cli_runner: Option<Runner>,
    stage: Stage,
    phase: Phase,
    from_refs: Vec<String>,
    next: usize,
    runner: Runner,
    success: bool,
    results: Ghost<Seq<bool>>,
    tree: String,
    commit: String,
}

/// Whether every hook run reported success.
pub open spec fn all_passed(results: Seq<bool>) -> bool {
    forall|i: int| 0 <= i < results.len() ==> #[trigger] results[i]
}

/// The action that runs the hook against diff base `from`: lefthook first
/// needs the changed files.
pub open spec fn hook_step(runner: Runner, stage: Stage, from: Seq<char>, to: Seq<char>) -> ActionView {
    if runner == Runner::Lefthook {
        ActionView::ListChangedFiles(from, to)
    } else {
        ActionView::RunHook(hook_argv(runner, stage, from, to))
    }
}

impl UpdateRun {
    /// The bookmark update this run is for.
    pub closed spec fn update_view(&self) -> UpdateView {
        self.update@
    }

    /// The state the run is in.
    pub closed spec fn phase_of(&self) -> Phase {
        self.phase
    }

    /// The diff bases, once resolved.
    pub closed spec fn bases(&self) -> Seq<Seq<char>> {
        views(self.from_refs@)
    }

    /// How many diff bases the hooks have run against.
    pub closed spec fn hooks_done(&self) -> nat {
        self.next as nat
    }

    /// The runner in use, once picked.
    pub closed spec fn runner_of(&self) -> Runner {
        self.runner
    }

    /// The success reports of the hook runs so far, in order.
    pub closed spec fn hook_results(&self) -> Seq<bool> {
        self.results@
    }

    /// The tree that the worktree holds after the hooks.
    pub closed spec fn tree_of(&self) -> Seq<char> {
        self.tree@
    }

    /// The fixup commit, once built.
    pub closed spec fn commit_of(&self) -> Seq<char> {
        self.commit@
    }

    /// The runner that was asked for, if any.
    pub closed spec fn requested_runner(&self) -> Option<Runner> {
        self.cli_runner
    }

    /// The stage the hooks run at.
    pub closed spec fn stage_of(&self) -> Stage {
        self.stage
    }

    /// The commit the update moves the bookmark to.
    pub closed spec fn target(&self) -> Seq<char> {
        self.new_commit@
    }

    /// The internal consistency of a run.
    pub closed spec fn wf(&self) -> bool {
        &&& self.phase != Phase::Finished ==> self.update@.new_commit == Some(self.new_commit@)
        &&& self.next <= self.from_refs.len()
        &&& self.results@.len() == self.next
        &&& self.success == all_passed(self.results@)
        &&& (self.phase == Phase::AwaitChangedFiles || self.phase == Phase::AwaitHook)
            ==> self.next < self.from_refs.len()
        &&& self.phase == Phase::AwaitChangedFiles ==> self.runner == Runner::Lefthook
        &&& (self.phase == Phase::AwaitTree || self.phase == Phase::AwaitParentTree
            || self.phase == Phase::AwaitCommit || self.phase == Phase::AwaitRef
            || self.phase == Phase::AwaitImport || self.phase == Phase::AwaitCleanup)
            ==> self.next == self.from_refs.len()
        &&& (self.phase == Phase::AwaitWorktree || self.phase == Phase::AwaitProbe) ==> self.next
            == 0 && self.from_refs.len() >= 1
        &&& self.phase == Phase::AwaitAncestors ==> self.next == 0 && self.update@.old_commit is None
    }

    /// Whether `e` is the kind of answer that the current action asks for.
    pub open spec fn accepts(&self, e: UpdateEvent) -> bool {
        match self.phase_of() {
            Phase::AwaitAncestors => e is Output,
            Phase::AwaitWorktree => e is Done,
            Phase::AwaitProbe => e is Files,
            Phase::AwaitChangedFiles => e is Output,
            Phase::AwaitHook => e is Exited,
            Phase::AwaitTree => e is Output,
            Phase::AwaitParentTree => e is Output,
            Phase::AwaitCommit => e is Output,
            Phase::AwaitRef => e is Done,
            Phase::AwaitImport => e is Done,
            Phase::AwaitCleanup => e is Done,
            Phase::Finished => false,
        }
    }
}

/// Whether `r` asks for action `a`.
pub open spec fn asks(r: Result<UpdateAction, JjHooksError>, a: ActionView) -> bool {
    r matches Ok(x) && x@ == a
}

/// The parts of a run that no step changes.
pub open spec fn same_job(a: UpdateRun, b: UpdateRun) -> bool {
    &&& b.update_view() == a.update_view()
    &&& b.target() == a.target()
    &&& b.requested_runner() == a.requested_runner()
    &&& b.stage_of() == a.stage_of()
}

/// `b` has the diff bases, runner and hook results of `a`.
pub open spec fn same_hooks(a: UpdateRun, b: UpdateRun) -> bool {
    &&& b.bases() == a.bases()
    &&& b.hooks_done() == a.hooks_done()
    &&& b.runner_of() == a.runner_of()
    &&& b.hook_results() == a.hook_results()
}

/// The state and action that begin the hook runs with runner `rn`, or that
/// finish the hook runs when every diff base has been handled.
pub open spec fn next_hook(b: UpdateRun, rn: Runner, r: Result<UpdateAction, JjHooksError>) -> bool {
    &&& b.runner_of() == rn
    &&& if b.hooks_done() < b.bases().len() {
        let a = hook_step(rn, b.stage_of(), b.bases()[b.hooks_done() as int], b.target());
        &&& asks(r, a)
        &&& b.phase_of() == (if rn == Runner::Lefthook {
            Phase::AwaitChangedFiles
        } else {
            Phase::AwaitHook
        })
    } else {
        &&& asks(r, ActionView::WriteTree)
        &&& b.phase_of() == Phase::AwaitTree
    }
}

/// What one step of a run does with the answer `e` to the current action:
/// the next state `b` and the next action `r`.
pub open spec fn resumed(a: UpdateRun, b: UpdateRun, e: UpdateEvent, r: Result<UpdateAction, JjHooksError>) -> bool {
    &&& same_job(a, b)
    &&& match a.phase_of() {
        Phase::AwaitAncestors => {
            &&& b.bases() == bases_from_ancestors(a.target(), e->Output_0@)
            &&& b.hooks_done() == 0
            &&& b.hook_results() == a.hook_results()
            &&& b.phase_of() == Phase::AwaitWorktree
            &&& asks(r, ActionView::CreateWorktree(a.target()))
        },
        Phase::AwaitWorktree => match a.requested_runner() {
            Some(rn) => {
                &&& b.bases() == a.bases()
                &&& b.hooks_done() == a.hooks_done()
                &&& b.hook_results() == a.hook_results()
                &&& next_hook(b, rn, r)
            },
            None => {
                &&& same_hooks(a, b)
                &&& b.phase_of() == Phase::AwaitProbe
                &&& asks(r, ActionView::ProbeConfig)
            },
        },
        Phase::AwaitProbe => {
            let files = views(e->Files_0@);
            &&& b.bases() == a.bases()
            &&& b.hooks_done() == a.hooks_done()
            &&& b.hook_results() == a.hook_results()
            &&& autodetect_result(files, match r {
                Ok(UpdateAction::Finish(_)) => Ok(None),
                Ok(_) => Ok(Some(b.runner_of())),
                Err(err) => Err(err),
            })
            &&& match r {
                Ok(UpdateAction::Finish(_)) => {
                    &&& asks(r, ActionView::Finish(true, None))
                    &&& b.phase_of() == Phase::Finished
                },
                Ok(_) => next_hook(b, b.runner_of(), r),
                Err(_) => true,
            }
        },
        Phase::AwaitChangedFiles => {
            &&& same_hooks(a, b)
            &&& b.phase_of() == Phase::AwaitHook
            &&& asks(r, ActionView::RunHook(lefthook_argv(a.stage_of(), nonblank_lines_seq(e->Output_0@))))
        },
        Phase::AwaitHook => {
            &&& b.bases() == a.bases()
            &&& b.hooks_done() == a.hooks_done() + 1
            &&& b.hook_results() == a.hook_results().push(e->Exited_0)
            &&& next_hook(b, a.runner_of(), r)
        },
        Phase::AwaitTree => {
            &&& same_hooks(a, b)
            &&& b.tree_of() == trimmed(e->Output_0@)
            &&& b.phase_of() == Phase::AwaitParentTree
            &&& asks(r, ActionView::ReadTree(a.target() + "^{tree}"@))
        },
        Phase::AwaitParentTree => {
            &&& same_hooks(a, b)
            &&& b.tree_of() == a.tree_of()
            &&& if trimmed(e->Output_0@) == a.tree_of() {
                &&& b.phase_of() == Phase::Finished
                &&& asks(r, ActionView::Finish(all_passed(a.hook_results()), None))
            } else {
                &&& b.phase_of() == Phase::AwaitCommit
                &&& asks(r, ActionView::CommitTree(a.tree_of(), a.target(), fixup_message_text(a.update_view().bookmark)))
            }
        },
        Phase::AwaitCommit => {
            &&& same_hooks(a, b)
            &&& b.commit_of() == trimmed(e->Output_0@)
            &&& b.phase_of() == Phase::AwaitRef
            &&& asks(r, ActionView::UpdateRef(fixup_ref_name(a.update_view().bookmark), b.commit_of()))
        },
        Phase::AwaitRef => {
            &&& same_hooks(a, b)
            &&& b.commit_of() == a.commit_of()
            &&& b.phase_of() == Phase::AwaitImport
            &&& asks(r, ActionView::Import)
        },
        Phase::AwaitImport => {
            &&& same_hooks(a, b)
            &&& b.commit_of() == a.commit_of()
            &&& b.phase_of() == Phase::AwaitCleanup
            &&& asks(r, ActionView::Cleanup(fixup_bookmark_name(a.update_view().bookmark), fixup_ref_name(a.update_view().bookmark)))
        },
        Phase::AwaitCleanup => {
            &&& same_hooks(a, b)
            &&& b.phase_of() == Phase::Finished
            &&& asks(r, ActionView::Finish(all_passed(a.hook_results()), Some(a.commit_of())))
        },
        Phase::Finished => true,
    }
}

/// Starts the hook run for one bookmark update and names the first action.
/// A deletion has nothing to check and finishes at once with success. A
/// moved bookmark is diffed against its old commit; a new one against the
/// commits that the ancestor query of the first action returns.
pub fn run_for_update(update: &BookmarkUpdate, cli_runner: Option<Runner>, stage: Stage) -> (r: (UpdateRun, UpdateAction))
    ensures
        r.0.wf(),
        r.0.update_view() == update@,
        r.0.requested_runner() == cli_runner,
        r.0.stage_of() == stage,
        r.0.hook_results() == Seq::<bool>::empty(),
        r.0.hooks_done() == 0,
        match update@.new_commit {
            None => r.1@ == ActionView::Finish(true, None) && r.0.phase_of() == Phase::Finished,
            Some(new) => {
                &&& r.0.target() == new
                &&& match update@.old_commit {
                    Some(old) => {
                        &&& r.0.bases() == seq![old]
                        &&& r.0.phase_of() == Phase::AwaitWorktree
                        &&& r.1@ == ActionView::CreateWorktree(new)
                    },
                    None => {
                        &&& r.0.phase_of() == Phase::AwaitAncestors
                        &&& r.1@ == ActionView::QueryRemoteAncestors(
                            remote_ancestors_revset(new, update@.remote),
                        )
                    },
                }
            },
        },
{
    let mut run = UpdateRun {
        update: update.duplicate(),
        new_commit: String::new(),
        cli_runner,
        stage,
        phase: Phase::Finished,
        from_refs: Vec::new(),
        next: 0,
        runner: Runner::PreCommit,
        success: true,
        results: Ghost(Seq::empty()),
        tree: String::new(),
        commit: String::new(),
    };
    assert(all_passed(Seq::<bool>::empty()));
    match &update.new_commit {
        None => {
            let outcome = HookOutcome { success: true, fixup_commit: None };
            (run, UpdateAction::Finish(outcome))
        },
        Some(new) => {
            run.new_commit = new.clone();
            match &update.old_commit {
                Some(old) => {
                    run.from_refs = vec![old.clone()];
                    run.phase = Phase::AwaitWorktree;
                    assert(views(run.from_refs@) =~= seq![old@]);
                    (run, UpdateAction::CreateWorktree { commit: new.clone() })
                },
                None => {
                    run.phase = Phase::AwaitAncestors;
                    let mut revset = cat3("heads(::", new.as_str(), " & ::remote_bookmarks(remote=exact:");
                    revset.append(update.remote.as_str());
                    revset.append("))");
                    (run, UpdateAction::QueryRemoteAncestors { revset })
                },
            }
        },
    }
}

impl UpdateRun {
    /// The action for the next diff base, or the tree write when every base
    /// has been handled.
    fn next_hook_action(&mut self) -> (r: Result<UpdateAction, JjHooksError>)
        requires
            old(self).next <= old(self).from_refs.len(),
            old(self).results@.len() == old(self).next,
            old(self).success == all_passed(old(self).results@),
            old(self).update@.new_commit == Some(old(self).new_commit@),
        ensures
            final(self).wf(),
            same_job(*old(self), *final(self)),
            same_hooks(*old(self), *final(self)),
            next_hook(*final(self), old(self).runner, r),
    {
        if self.next < self.from_refs.len() {
            let from = self.from_refs[self.next].as_str();
            if self.runner == Runner::Lefthook {
                self.phase = Phase::AwaitChangedFiles;
                Ok(UpdateAction::ListChangedFiles { from: to_owned_string(from), to: self.new_commit.clone() })
            } else {
                let argv = hook_command(self.runner, self.stage, from, self.new_commit.as_str());
                self.phase = Phase::AwaitHook;
                Ok(UpdateAction::RunHook { argv })
            }
        } else {
            self.phase = Phase::AwaitTree;
            Ok(UpdateAction::WriteTree)
        }
    }

    /// Takes the answer to the current action and names the next one. An
    /// error ends the run: more than one runner configured in the target
    /// commit when no runner was asked for.
    pub fn resume(&mut self, e: UpdateEvent) -> (r: Result<UpdateAction, JjHooksError>)
        requires
            old(self).wf(),
            old(self).accepts(e),
        ensures
            final(self).wf(),
            resumed(*old(self), *final(self), e, r),
    {
        match e {
            UpdateEvent::Output(out) => {
                match self.phase {
                    Phase::AwaitAncestors => {
                        let mut refs = nonblank_lines(out.as_str());
                        if refs.len() == 0 {
                            refs.push(cat(self.new_commit.as_str(), "^"));
                            assert(views(refs@) =~= seq![self.new_commit@ + "^"@]);
                        }
                        self.from_refs = refs;
                        self.phase = Phase::AwaitWorktree;
                        Ok(UpdateAction::CreateWorktree { commit: self.new_commit.clone() })
                    },
                    Phase::AwaitChangedFiles => {
                        let files = nonblank_lines(out.as_str());
                        let argv = lefthook_command(self.stage, &files);
                        self.phase = Phase::AwaitHook;
                        Ok(UpdateAction::RunHook { argv })
                    },
                    Phase::AwaitTree => {
                        self.tree = trim(out.as_str());
                        self.phase = Phase::AwaitParentTree;
                        Ok(UpdateAction::ReadTree { rev: cat(self.new_commit.as_str(), "^{tree}") })
                    },
                    Phase::AwaitParentTree => {
                        let parent_tree = trim(out.as_str());
                        if str_eq(parent_tree.as_str(), self.tree.as_str()) {
                            self.phase = Phase::Finished;
                            Ok(UpdateAction::Finish(HookOutcome { success: self.success, fixup_commit: None }))
                        } else {
                            self.phase = Phase::AwaitCommit;
                            Ok(UpdateAction::CommitTree {
                                tree: self.tree.clone(),
                                parent: self.new_commit.clone(),
                                message: cat("jj-hooks: autofixes for ", self.update.bookmark.as_str()),
                            })
                        }
                    },
                    _ => {
                        self.commit = trim(out.as_str());
                        self.phase = Phase::AwaitRef;
                        Ok(UpdateAction::UpdateRef {
                            ref_name: fixup_ref(self.update.bookmark.as_str()),
                            commit: self.commit.clone(),
                        })
                    },
                }
            },
            UpdateEvent::Files(files) => {
                match Runner::autodetect(&files) {
                    Err(err) => Err(err),
                    Ok(None) => {
                        self.phase = Phase::Finished;
                        Ok(UpdateAction::Finish(HookOutcome { success: true, fixup_commit: None }))
                    },
                    Ok(Some(rn)) => {
                        self.runner = rn;
                        self.next_hook_action()
                    },
                }
            },
            UpdateEvent::Exited(ok) => {
                proof {
                    let rs = self.results@.push(ok);
                    assert(all_passed(rs) == (all_passed(self.results@) && ok)) by {
                        if all_passed(self.results@) && ok {
                            assert forall|i: int| 0 <= i < rs.len() implies #[trigger] rs[i] by {
                                if i < self.results@.len() {
                                    assert(rs[i] == self.results@[i]);
                                }
                            }
                        }
                        if all_passed(rs) {
                            assert(rs[rs.len() - 1] == ok);
                            assert forall|i: int| 0 <= i < self.results@.len() implies #[trigger] self.results@[i] by {
                                assert(rs[i] == self.results@[i]);
                            }
                        }
                    }
                }
                self.success = self.success && ok;
                self.results = Ghost(self.results@.push(ok));
                self.next = self.next + 1;
                self.next_hook_action()
            },
            UpdateEvent::Done => {
                match self.phase {
                    Phase::AwaitWorktree => {
                        match self.cli_runner {
                            Some(rn) => {
                                self.runner = rn;
                                self.next_hook_action()
                            },
                            None => {
                                self.phase = Phase::AwaitProbe;
                                Ok(UpdateAction::ProbeConfig)
                            },
                        }
                    },
                    Phase::AwaitRef => {
                        self.phase = Phase::AwaitImport;
                        Ok(UpdateAction::Import)
                    },
                    Phase::AwaitImport => {
                        self.phase = Phase::AwaitCleanup;
                        Ok(UpdateAction::Cleanup {
                            bookmark: fixup_bookmark(self.update.bookmark.as_str()),
                            ref_name: fixup_ref(self.update.bookmark.as_str()),
                        })
                    },
                    _ => {
                        self.phase = Phase::Finished;
                        Ok(UpdateAction::Finish(HookOutcome {
                            success: self.success,
                            fixup_commit: Some(self.commit.clone()),
                        }))
                    },
                }
            },
        }
    }
}

/// Each character of a sanitized name is the original one or `_`.
proof fn lemma_ref_safe_chars(s: Seq<char>)
    ensures
        ref_safe(s).len() == if s.len() == 0 { 1 } else { s.len() },
        forall|k: int| 0 <= k < ref_safe(s).len() ==> #[trigger] ref_safe(s)[k] == '_' || (s.len() > 0
            && ref_safe(s)[k] == s[k] && !must_replace(s, k)),
{
}

/// A sanitized name has no character left that must be replaced.
proof fn lemma_ref_safe_settled(s: Seq<char>)
    ensures
        forall|i: int| 0 <= i < ref_safe(s).len() ==> !must_replace(ref_safe(s), i),
{
    lemma_ref_safe_chars(s);
    let t = ref_safe(s);
    assert forall|i: int| 0 <= i < t.len() implies !must_replace(t, i) by {
        if t[i] != '_' {
            assert(t[i] == s[i] && !must_replace(s, i));
            if i > 0 {
                assert(t[i - 1] == '_' || t[i - 1] == s[i - 1]);
            }
            if ends_lock(t, i) {
                assert(t[i + 1] == s[i + 1]);
                assert(t[i + 2] == s[i + 2]);
                assert(t[i + 3] == s[i + 3]);
                assert(t[i + 4] == s[i + 4]);
                if i + 5 < t.len() {
                    assert(t[i + 5] == s[i + 5]);
                }
                assert(ends_lock(s, i));
            }
        }
    }
}

/// Sanitizing keeps every character that git accepts where it stands: a
/// character changes only when it is one that git refuses (a control
/// character, DEL, space, `~ ^ : ? * [ \\`) or forms a sequence that git
/// refuses (`..`, `@{`, `//`, a `/` at either end, a `.` that starts a
/// component or ends the name, a final `.lock`). Letters, digits and all
/// other characters are never replaced, and the name keeps its length.
pub proof fn lemma_ref_safe_keeps(s: Seq<char>)
    requires
        s.len() > 0,
    ensures
        ref_safe(s).len() == s.len(),
        forall|i: int| 0 <= i < s.len() && (#[trigger] ref_safe(s)[i]) != s[i] ==> {
            let c = s[i];
            ||| c < ' ' || c == '\u{7f}' || c == ' ' || c == '~' || c == '^' || c == ':' || c == '?'
                || c == '*' || c == '[' || c == '\\'
            ||| c == '.' && (i == 0 || s[i - 1] == '/' || s[i - 1] == '.' || i == s.len() - 1 || (i
                + 5 <= s.len() && s[i + 1] == 'l' && s[i + 2] == 'o' && s[i + 3] == 'c' && s[i + 4]
                == 'k' && (i + 5 == s.len() || s[i + 5] == '/')))
            ||| c == '{' && i > 0 && s[i - 1] == '@'
            ||| c == '/' && (i == 0 || s[i - 1] == '/' || i == s.len() - 1)
        },
        forall|i: int| 0 <= i < s.len() && (#[trigger] ref_safe(s)[i]) != s[i] ==> ref_safe(s)[i] == '_',
{
}

/// Sanitizing a name twice changes nothing more than sanitizing it once.
pub proof fn lemma_ref_safe_idempotent(s: Seq<char>)
    ensures
        ref_safe(ref_safe(s)) == ref_safe(s),
{
    lemma_ref_safe_settled(s);
    lemma_ref_safe_chars(s);
    assert(ref_safe(ref_safe(s)) =~= ref_safe(s));
}

/// The fixup ref of any bookmark is a ref name that git accepts.
pub proof fn lemma_fixup_ref_valid(b: Seq<char>)
    ensures
        valid_ref_name(fixup_ref_name(b)),
{
    lemma_ref_safe_settled(b);
    lemma_ref_safe_chars(b);
    reveal_strlit("refs/heads/");
    reveal_strlit("jj-hooks-fixup/");
    let p = "refs/heads/"@ + "jj-hooks-fixup/"@;
    let t = ref_safe(b);
    let r = fixup_ref_name(b);
    assert(r =~= p + t);
    assert(p.len() == 26);
    assert(p[25] == '/');
    assert forall|i: int| 0 <= i < p.len() implies !bad_ref_char(#[trigger] p[i]) && p[i] != '.'
        && p[i] != '@' && (p[i] == '/' ==> i > 0 && p[i - 1] != '/') by {
    }
    assert(!must_replace(t, 0));
    assert(!must_replace(t, t.len() - 1));
    assert forall|i: int| 0 <= i < r.len() implies !bad_ref_char(#[trigger] r[i]) by {
        if i >= 26 {
            assert(r[i] == t[i - 26]);
            assert(!must_replace(t, i - 26));
        }
    }
    assert forall|i: int| 0 <= i < r.len() - 1 implies !bad_pair(#[trigger] r[i], r[i + 1]) by {
        if i >= 26 {
            assert(r[i] == t[i - 26]);
            assert(r[i + 1] == t[i + 1 - 26]);
            assert(!must_replace(t, i + 1 - 26));
        } else if i == 25 {
            assert(r[i + 1] == t[0]);
        } else {
            assert(r[i + 1] == p[i + 1]);
        }
    }
    assert forall|i: int| !ends_lock(r, i) by {
        if ends_lock(r, i) {
            if i >= 26 {
                let j = i - 26;
                assert(r[i] == t[j]);
                assert(r[i + 1] == t[j + 1]);
                assert(r[i + 2] == t[j + 2]);
                assert(r[i + 3] == t[j + 3]);
                assert(r[i + 4] == t[j + 4]);
                if i + 5 < r.len() {
                    assert(r[i + 5] == t[j + 5]);
                }
                assert(ends_lock(t, j));
                assert(!must_replace(t, j));
            } else {
                assert(r[i] == p[i]);
            }
        }
    }
    assert(r.last() == t[t.len() - 1]);
    assert(r[0] == 'r');
    assert(r.len() != 1);
}

/// A bookmark name that needs no replacement keeps its spelling in the
/// fixup bookmark and the fixup ref.
pub proof fn lemma_clean_bookmark_kept(b: Seq<char>)
    requires
        b.len() > 0,
        forall|i: int| 0 <= i < b.len() ==> !must_replace(b, i),
    ensures
        fixup_bookmark_name(b) == "jj-hooks-fixup/"@ + b,
        fixup_ref_name(b) == "refs/heads/jj-hooks-fixup/"@ + b,
{
    assert(ref_safe(b) =~= b);
    reveal_strlit("refs/heads/");
    reveal_strlit("jj-hooks-fixup/");
    reveal_strlit("refs/heads/jj-hooks-fixup/");
    assert("refs/heads/"@ + "jj-hooks-fixup/"@ =~= "refs/heads/jj-hooks-fixup/"@);
    assert(fixup_ref_name(b) =~= "refs/heads/jj-hooks-fixup/"@ + b);
}

/// The fixup ref of a bookmark is the branch ref of its fixup bookmark, so
/// that `jj git import` names the imported bookmark as cleanup expects.
pub proof fn lemma_fixup_ref_of_fixup_bookmark(b: Seq<char>)
    ensures
        fixup_ref_name(b) == "refs/heads/"@ + fixup_bookmark_name(b),
{
}

} // verus!
