//! The push pipeline: dry-run report, hooks per bookmark, then push or
//! abort.
//!
//! [`run_checks`] starts a check of a push: the caller runs the dry run it
//! asks for, then the hook run of each bookmark update that
//! [`ChecksRun::resume`] hands out, until the report is complete.

use vstd::prelude::*;

use crate::bookmark_updates::{
    BookmarkUpdate, UpdateType, UpdateView, copy_opt, dry_run_spec, opt_view, parse_git_push_dry_run,
    update_views,
};
use crate::error::JjHooksError;
use crate::hooks::HookOutcome;
use crate::runner::{Runner, Stage};
use crate::text::{str_eq, to_owned_string, trim, trimmed, views};

verus! {

/// The hook outcomes of every bookmark that a push would change.
#[derive(Debug, Clone)]
pub struct PushReport {
    /// Per-bookmark hook outcomes.
    pub per_bookmark: Vec<(BookmarkUpdate, HookOutcome)>,
    /// Set when there was nothing to check (no updates, or only deletions);
    /// the caller falls through to a plain `jj git push`.
    pub skipped: bool,
}

/// The abstract value of a [`HookOutcome`]: success and the fixup commit.
pub open spec fn outcome_view(o: HookOutcome) -> (bool, Option<Seq<char>>) {
    (o.success, opt_view(o.fixup_commit))
}

/// The abstract value of the entries of a report.
pub open spec fn entries_view(v: Seq<(BookmarkUpdate, HookOutcome)>) -> Seq<(UpdateView, (bool, Option<Seq<char>>))> {
    v.map_values(|p: (BookmarkUpdate, HookOutcome)| (p.0@, outcome_view(p.1)))
}

/// Whether some hook run of the report failed.
pub open spec fn report_has_failure(e: Seq<(UpdateView, (bool, Option<Seq<char>>))>) -> bool {
    exists|i: int| 0 <= i < e.len() && !(#[trigger] e[i]).1.0
}

/// Whether some hook run of the report produced a fixup commit.
pub open spec fn report_has_fixup(e: Seq<(UpdateView, (bool, Option<Seq<char>>))>) -> bool {
    exists|i: int| 0 <= i < e.len() && (#[trigger] e[i]).1.1 is Some
}

/// Whether a push may go ahead after its checks: when there was nothing to
/// check, or when every hook passed without modifying files.
pub open spec fn push_allowed(skipped: bool, e: Seq<(UpdateView, (bool, Option<Seq<char>>))>) -> bool {
    skipped || (!report_has_failure(e) && !report_has_fixup(e))
}

/// The updates that need hooks: all but the deletions, in order.
pub open spec fn checked_updates(ups: Seq<UpdateView>) -> Seq<UpdateView>
    decreases ups.len(),
{
    if ups.len() == 0 {
        Seq::empty()
    } else {
        let r = checked_updates(ups.drop_last());
        if ups.last().update_type == UpdateType::Delete {
            r
        } else {
            r.push(ups.last())
        }
    }
}

/// The bookmarks to move to their fixup commits, with those commits, in
/// report order.
pub open spec fn advances(e: Seq<(UpdateView, (bool, Option<Seq<char>>))>) -> Seq<(Seq<char>, Seq<char>)>
    decreases e.len(),
{
    if e.len() == 0 {
        Seq::empty()
    } else {
        let r = advances(e.drop_last());
        match e.last().1.1 {
            Some(c) => r.push((e.last().0.bookmark, c)),
            None => r,
        }
    }
}

impl PushReport {
    /// The abstract value of the report's entries.
    pub open spec fn entries(&self) -> Seq<(UpdateView, (bool, Option<Seq<char>>))> {
        entries_view(self.per_bookmark@)
    }

    /// Whether any bookmark's hooks failed.
    pub fn any_failure(&self) -> (r: bool)
        ensures
            r == report_has_failure(self.entries()),
    {
        let mut i: usize = 0;
        while i < self.per_bookmark.len()
            invariant
                i <= self.per_bookmark.len(),
                forall|k: int| 0 <= k < i ==> (#[trigger] self.per_bookmark@[k]).1.success,
            decreases self.per_bookmark.len() - i,
        {
            if !self.per_bookmark[i].1.success {
                assert(!self.entries()[i as int].1.0);
                return true;
            }
            i = i + 1;
        }
        assert forall|k: int| 0 <= k < self.entries().len() implies (#[trigger] self.entries()[k]).1.0 by {
            assert(self.per_bookmark@[k].1.success);
        }
        false
    }

    /// Whether any bookmark's hooks produced a fixup commit.
    pub fn any_fixup(&self) -> (r: bool)
        ensures
            r == report_has_fixup(self.entries()),
    {
        let mut i: usize = 0;
        while i < self.per_bookmark.len()
            invariant
                i <= self.per_bookmark.len(),
                forall|k: int| 0 <= k < i ==> (#[trigger] self.per_bookmark@[k]).1.fixup_commit is None,
            decreases self.per_bookmark.len() - i,
        {
            if self.per_bookmark[i].1.fixup_commit.is_some() {
                assert(self.entries()[i as int].1.1 is Some);
                return true;
            }
            i = i + 1;
        }
        assert forall|k: int| 0 <= k < self.entries().len() implies (#[trigger] self.entries()[k]).1.1 is None by {
            assert(self.per_bookmark@[k].1.fixup_commit is None);
        }
        false
    }

    /// Whether the push may go ahead: nothing needed checking, or every
    /// hook passed without modifying files.
    pub fn push_allowed(&self) -> (r: bool)
        ensures
            r == push_allowed(self.skipped, self.entries()),
    {
        self.skipped || (!self.any_failure() && !self.any_fixup())
    }
}

/// The command line for `jj git push` with the forwarded arguments, with
/// `--dry-run` appended when asked.
pub open spec fn push_argv(push_args: Seq<Seq<char>>, dry_run: bool) -> Seq<Seq<char>> {
    seq!["git"@, "push"@] + push_args + if dry_run {
        seq!["--dry-run"@]
    } else {
        Seq::empty()
    }
}

/// The command line for the dry run that lists what a push would change.
pub open spec fn dry_run_argv(push_args: Seq<Seq<char>>) -> Seq<Seq<char>> {
    seq!["git"@, "push"@, "--dry-run"@] + push_args
}

/// `prefix` followed by copies of `args`.
fn with_args(prefix: Vec<String>, args: &Vec<String>) -> (r: Vec<String>)
    ensures
        views(r@) == views(prefix@) + views(args@),
{
    let mut out = prefix;
    let ghost start = views(out@);
    let mut i: usize = 0;
    while i < args.len()
        invariant
            i <= args.len(),
            views(out@) == start + views(args@).subrange(0, i as int),
        decreases args.len() - i,
    {
        let ghost prev = out@;
        out.push(args[i].clone());
        assert(views(out@) =~= views(prev).push(args@[i as int]@));
        assert(views(args@).subrange(0, i + 1) =~= views(args@).subrange(0, i as int).push(args@[i as int]@));
        i = i + 1;
    }
    assert(views(args@).subrange(0, args.len() as int) =~= views(args@));
    out
}

/// The `jj` command line that runs the real push.
pub fn push_command(push_args: &Vec<String>, dry_run: bool) -> (r: Vec<String>)
    ensures
        views(r@) == push_argv(views(push_args@), dry_run),
{
    let mut argv = with_args(vec![to_owned_string("git"), to_owned_string("push")], push_args);
    if dry_run {
        let ghost prev = argv@;
        argv.push(to_owned_string("--dry-run"));
        assert(views(argv@) =~= views(prev).push("--dry-run"@));
    }
    assert(views(argv@) =~= push_argv(views(push_args@), dry_run));
    argv
}

/// The `jj` command line that moves `bookmark` to `commit`.
pub open spec fn advance_argv(bookmark: Seq<char>, commit: Seq<char>) -> Seq<Seq<char>> {
    seq!["bookmark"@, "set"@, bookmark, "-r"@, commit, "--allow-backwards"@]
}

/// The `jj` command line that moves `bookmark` to `commit`, also backwards.
pub fn advance_command(bookmark: &str, commit: &str) -> (r: Vec<String>)
    ensures
        views(r@) == advance_argv(bookmark@, commit@),
{
    let r = vec![
        to_owned_string("bookmark"),
        to_owned_string("set"),
        to_owned_string(bookmark),
        to_owned_string("-r"),
        to_owned_string(commit),
        to_owned_string("--allow-backwards"),
    ];
    assert(views(r@) =~= advance_argv(bookmark@, commit@));
    r
}

/// When `advance_bookmarks` is set, the local bookmarks that have a fixup
/// commit, each with that commit, in report order; none otherwise. Each is
/// then moved with [`advance_command`].
pub fn maybe_advance_bookmarks(report: &PushReport, advance_bookmarks: bool) -> (r: Vec<(String, String)>)
    ensures
        r@.map_values(|p: (String, String)| (p.0@, p.1@)) == if advance_bookmarks {
            advances(report.entries())
        } else {
            Seq::empty()
        },
{
    let mut out: Vec<(String, String)> = Vec::new();
    if !advance_bookmarks {
        assert(out@.map_values(|p: (String, String)| (p.0@, p.1@)) =~= Seq::<(Seq<char>, Seq<char>)>::empty());
        return out;
    }
    let ghost e = report.entries();
    let mut i: usize = 0;
    assert(e.subrange(0, 0) =~= Seq::<(UpdateView, (bool, Option<Seq<char>>))>::empty());
    assert(out@.map_values(|p: (String, String)| (p.0@, p.1@)) =~= Seq::<(Seq<char>, Seq<char>)>::empty());
    while i < report.per_bookmark.len()
        invariant
            e == report.entries(),
            i <= report.per_bookmark.len(),
            out@.map_values(|p: (String, String)| (p.0@, p.1@)) == advances(e.subrange(0, i as int)),
        decreases report.per_bookmark.len() - i,
    {
        let ghost sub = e.subrange(0, i + 1);
        assert(sub.drop_last() =~= e.subrange(0, i as int));
        assert(sub.last() == e[i as int]);
        let entry = &report.per_bookmark[i];
        if let Some(c) = &entry.1.fixup_commit {
            let ghost prev = out@;
            out.push((entry.0.bookmark.clone(), c.clone()));
            assert(out@.map_values(|p: (String, String)| (p.0@, p.1@)) =~= prev.map_values(
                |p: (String, String)| (p.0@, p.1@),
            ).push((entry.0.bookmark@, c@)));
        }
        i = i + 1;
    }
    assert(e.subrange(0, report.per_bookmark.len() as int) =~= e);
    out
}

/// The `jj` command line that reads the advance-bookmarks default.
pub open spec fn advance_config_argv() -> Seq<Seq<char>> {
    seq!["config"@, "get"@, "jj-hooks.advance-bookmarks"@]
}

/// The `jj` command line that reads the advance-bookmarks default.
pub fn advance_config_command() -> (r: Vec<String>)
    ensures
        views(r@) == advance_config_argv(),
{
    let r = vec![
        to_owned_string("config"),
        to_owned_string("get"),
        to_owned_string("jj-hooks.advance-bookmarks"),
    ];
    assert(views(r@) =~= advance_config_argv());
    r
}

/// Whether the configuration asks to advance bookmarks, from the output of
/// [`advance_config_command`] (none when the command failed): only the
/// value `true` does.
pub fn advance_bookmarks_from_config(output: &Option<String>) -> (r: bool)
    ensures
        r == (output matches Some(o) && trimmed(o@) == "true"@),
{
    match output {
        Some(o) => {
            let t = trim(o.as_str());
            str_eq(t.as_str(), "true")
        },
        None => false,
    }
}

/// The state of the checks of one push.
#[derive(Debug, Clone, Copy, PartialEq, Eq, Structural)]
pub enum ChecksPhase {
    AwaitDryRun,
    Checking,
    Finished,
}

/// What the caller is asked to do next.
#[derive(Debug)]
pub enum ChecksAction {
    /// Run `jj` with these arguments and answer with what it wrote to
    /// stderr, where jj reports what a push would change.
    DryRun { argv: Vec<String> },
    /// Run the hooks for this update ([`crate::hooks::run_for_update`]) and
    /// answer with the outcome.
    Check { update: BookmarkUpdate, runner: Option<Runner>, stage: Stage },
    /// The checks are over.
    Finish(PushReport),
}

/// The answer to a [`ChecksAction`].
#[derive(Debug)]
pub enum ChecksEvent {
    DryRunOutput(String),
    Checked(HookOutcome),
}

/// The checks of one push, between two actions.
pub struct ChecksRun {
    cli_runner: Option<Runner>,
    stage: Stage,
    phase: ChecksPhase,
    pending: Vec<BookmarkUpdate>,
    next: usize,
    done: Vec<(BookmarkUpdate, HookOutcome)>,
}

impl ChecksRun {
    /// The state the checks are in.
    pub closed spec fn phase_of(&self) -> ChecksPhase {
        self.phase
    }

    /// The updates that need hooks, once known.
    pub closed spec fn to_check(&self) -> Seq<UpdateView> {
        update_views(self.pending@)
    }

    /// The updates checked so far, with their outcomes.
    pub closed spec fn checked(&self) -> Seq<(UpdateView, (bool, Option<Seq<char>>))> {
        entries_view(self.done@)
    }

    /// The runner that was asked for, if any.
    pub closed spec fn requested_runner(&self) -> Option<Runner> {
        self.cli_runner
    }

    /// The stage the hooks run at.
    pub closed spec fn stage_of(&self) -> Stage {
        self.stage
    }

    /// The internal consistency of the checks.
    pub closed spec fn wf(&self) -> bool {
        &&& self.next <= self.pending.len()
        &&& self.done.len() == self.next
        &&& forall|k: int| 0 <= k < self.next ==> #[trigger] self.done@[k].0@ == self.pending@[k]@
        &&& self.phase == ChecksPhase::Checking ==> self.next < self.pending.len()
        &&& self.phase == ChecksPhase::AwaitDryRun ==> self.pending.len() == 0
    }

    /// Whether `e` is the kind of answer that the current action asks for.
    pub open spec fn accepts(&self, e: ChecksEvent) -> bool {
        match self.phase_of() {
            ChecksPhase::AwaitDryRun => e is DryRunOutput,
            ChecksPhase::Checking => e is Checked,
            ChecksPhase::Finished => false,
        }
    }
}

/// Whether action `a` hands out update `u` for checking with the run's
/// runner and stage.
pub open spec fn hands_out(run: ChecksRun, r: Result<ChecksAction, JjHooksError>, u: UpdateView) -> bool {
    r matches Ok(ChecksAction::Check { update, runner, stage }) && update@ == u && runner
        == run.requested_runner() && stage == run.stage_of()
}

/// Whether action `a` ends the checks with a report of these entries.
pub open spec fn reports(r: Result<ChecksAction, JjHooksError>, skipped: bool, e: Seq<(UpdateView, (bool, Option<Seq<char>>))>) -> bool {
    r matches Ok(ChecksAction::Finish(rep)) && rep.skipped == skipped && rep.entries() == e
}

/// Starts the checks of `jj git push <push_args>` and names the first
/// action: the dry run. `cli_runner` is `None` when no runner was asked for;
/// each update's hook run then detects the runner in its target commit.
pub fn run_checks(cli_runner: Option<Runner>, stage: Stage, push_args: &Vec<String>) -> (r: (ChecksRun, ChecksAction))
    ensures
        r.0.wf(),
        r.0.phase_of() == ChecksPhase::AwaitDryRun,
        r.0.requested_runner() == cli_runner,
        r.0.stage_of() == stage,
        r.1 matches ChecksAction::DryRun { argv } && views(argv@) == dry_run_argv(views(push_args@)),
{
    let argv = with_args(
        vec![to_owned_string("git"), to_owned_string("push"), to_owned_string("--dry-run")],
        push_args,
    );
    let run = ChecksRun {
        cli_runner,
        stage,
        phase: ChecksPhase::AwaitDryRun,
        pending: Vec::new(),
        next: 0,
        done: Vec::new(),
    };
    (run, ChecksAction::DryRun { argv })
}

/// A copy of an outcome.
fn copy_outcome(o: &HookOutcome) -> (r: HookOutcome)
    ensures
        outcome_view(r) == outcome_view(*o),
{
    HookOutcome { success: o.success, fixup_commit: copy_opt(&o.fixup_commit) }
}

/// A copy of report entries.
fn copy_entries(v: &Vec<(BookmarkUpdate, HookOutcome)>) -> (r: Vec<(BookmarkUpdate, HookOutcome)>)
    ensures
        entries_view(r@) == entries_view(v@),
{
    let mut out: Vec<(BookmarkUpdate, HookOutcome)> = Vec::new();
    let mut i: usize = 0;
    while i < v.len()
        invariant
            i <= v.len(),
            entries_view(out@) == entries_view(v@).subrange(0, i as int),
        decreases v.len() - i,
    {
        let ghost prev = out@;
        let u = v[i].0.duplicate();
        let o = copy_outcome(&v[i].1);
        out.push((u, o));
        assert(entries_view(out@) =~= entries_view(prev).push((v@[i as int].0@, outcome_view(v@[i as int].1))));
        assert(entries_view(v@).subrange(0, i + 1) =~= entries_view(v@).subrange(0, i as int).push(entries_view(v@)[i as int]));
        i = i + 1;
    }
    assert(entries_view(v@).subrange(0, v.len() as int) =~= entries_view(v@));
    out
}

/// The updates among `ups` that are not deletions, in order.
fn non_deletes(ups: Vec<BookmarkUpdate>) -> (r: Vec<BookmarkUpdate>)
    ensures
        update_views(r@) == checked_updates(update_views(ups@)),
{
    let ghost u = update_views(ups@);
    let mut out: Vec<BookmarkUpdate> = Vec::new();
    let mut i: usize = 0;
    assert(u.subrange(0, 0) =~= Seq::<UpdateView>::empty());
    assert(update_views(out@) =~= Seq::<UpdateView>::empty());
    while i < ups.len()
        invariant
            u == update_views(ups@),
            i <= ups.len(),
            update_views(out@) == checked_updates(u.subrange(0, i as int)),
        decreases ups.len() - i,
    {
        let ghost sub = u.subrange(0, i + 1);
        assert(sub.drop_last() =~= u.subrange(0, i as int));
        assert(sub.last() == ups@[i as int]@);
        if ups[i].update_type != UpdateType::Delete {
            let ghost prev = out@;
            out.push(ups[i].duplicate());
            assert(update_views(out@) =~= update_views(prev).push(ups@[i as int]@));
        }
        i = i + 1;
    }
    assert(u.subrange(0, ups.len() as int) =~= u);
    out
}

impl ChecksRun {
    /// Takes the answer to the current action and names the next one. The
    /// dry-run report is parsed; a report that lists nothing, or only
    /// deletions, ends the checks at once with a skipped report. Each
    /// remaining update is handed out in turn, and the report lists them
    /// with their outcomes in that order.
    pub fn resume(&mut self, e: ChecksEvent) -> (r: Result<ChecksAction, JjHooksError>)
        requires
            old(self).wf(),
            old(self).accepts(e),
        ensures
            final(self).wf(),
            final(self).requested_runner() == old(self).requested_runner(),
            final(self).stage_of() == old(self).stage_of(),
            match e {
                ChecksEvent::DryRunOutput(out) => match dry_run_spec(out@) {
                    Err(msg) => r matches Err(JjHooksError::Parse(m)) && m@ == msg,
                    Ok(ups) => {
                        let todo = checked_updates(ups);
                        if todo.len() == 0 {
                            &&& reports(r, true, Seq::empty())
                            &&& final(self).phase_of() == ChecksPhase::Finished
                        } else {
                            &&& final(self).to_check() == todo
                            &&& final(self).checked() == Seq::<(UpdateView, (bool, Option<Seq<char>>))>::empty()
                            &&& final(self).phase_of() == ChecksPhase::Checking
                            &&& hands_out(*final(self), r, todo[0])
                        }
                    },
                },
                ChecksEvent::Checked(o) => {
                    let n = old(self).checked().len();
                    let entries = old(self).checked().push((old(self).to_check()[n as int], outcome_view(o)));
                    &&& final(self).to_check() == old(self).to_check()
                    &&& final(self).checked() == entries
                    &&& if entries.len() < old(self).to_check().len() {
                        &&& final(self).phase_of() == ChecksPhase::Checking
                        &&& hands_out(*final(self), r, old(self).to_check()[entries.len() as int])
                    } else {
                        &&& final(self).phase_of() == ChecksPhase::Finished
                        &&& reports(r, false, entries)
                    }
                },
            },
    {
        match e {
            ChecksEvent::DryRunOutput(out) => {
                let ups = match parse_git_push_dry_run(out.as_str()) {
                    Ok(u) => u,
                    Err(err) => {
                        return Err(err);
                    },
                };
                let todo = non_deletes(ups);
                if todo.len() == 0 {
                    self.phase = ChecksPhase::Finished;
                    let rep = PushReport { per_bookmark: Vec::new(), skipped: true };
                    assert(rep.entries() =~= Seq::<(UpdateView, (bool, Option<Seq<char>>))>::empty());
                    return Ok(ChecksAction::Finish(rep));
                }
                let first = todo[0].duplicate();
                assert(update_views(todo@)[0] == todo@[0]@);
                self.pending = todo;
                self.phase = ChecksPhase::Checking;
                assert(entries_view(self.done@) =~= Seq::<(UpdateView, (bool, Option<Seq<char>>))>::empty());
                Ok(ChecksAction::Check { update: first, runner: self.cli_runner, stage: self.stage })
            },
            ChecksEvent::Checked(o) => {
                let u = self.pending[self.next].duplicate();
                let ghost prev = self.done@;
                self.done.push((u, o));
                assert(entries_view(self.done@) =~= entries_view(prev).push(
                    (self.pending@[self.next as int]@, outcome_view(o)),
                ));
                self.next = self.next + 1;
                if self.next < self.pending.len() {
                    let u2 = self.pending[self.next].duplicate();
                    assert(update_views(self.pending@)[self.next as int] == self.pending@[self.next as int]@);
                    Ok(ChecksAction::Check { update: u2, runner: self.cli_runner, stage: self.stage })
                } else {
                    self.phase = ChecksPhase::Finished;
                    let rep = PushReport { per_bookmark: copy_entries(&self.done), skipped: false };
                    Ok(ChecksAction::Finish(rep))
                }
            },
        }
    }
}

/// One failing bookmark blocks the whole push, whatever the others did.
pub proof fn lemma_one_failure_blocks_push(e: Seq<(UpdateView, (bool, Option<Seq<char>>))>, i: int)
    requires
        0 <= i < e.len(),
        !e[i].1.0,
    ensures
        !push_allowed(false, e),
{
    assert(report_has_failure(e));
}

/// One fixup commit blocks the whole push, even when every hook passed.
pub proof fn lemma_one_fixup_blocks_push(e: Seq<(UpdateView, (bool, Option<Seq<char>>))>, i: int)
    requires
        0 <= i < e.len(),
        e[i].1.1 is Some,
    ensures
        !push_allowed(false, e),
{
    assert(report_has_fixup(e));
}

/// Deletions get no hooks, every other update does, and the order is kept:
/// the checked updates are the updates that are not deletions, in order.
pub proof fn lemma_checked_updates(ups: Seq<UpdateView>)
    ensures
        forall|i: int| 0 <= i < checked_updates(ups).len() ==> (#[trigger] checked_updates(ups)[i]).update_type
            != UpdateType::Delete,
        checked_updates(ups) == ups.filter(|u: UpdateView| u.update_type != UpdateType::Delete),
    decreases ups.len(),
{
    reveal(Seq::filter);
    if ups.len() > 0 {
        lemma_checked_updates(ups.drop_last());
    }
    let f = |u: UpdateView| u.update_type != UpdateType::Delete;
    assert(checked_updates(ups) =~= ups.filter(f));
}

/// A push that only deletes bookmarks (or changes none) needs no hooks.
pub proof fn lemma_only_deletions_skip(ups: Seq<UpdateView>)
    requires
        forall|i: int| 0 <= i < ups.len() ==> (#[trigger] ups[i]).update_type == UpdateType::Delete,
    ensures
        checked_updates(ups).len() == 0,
    decreases ups.len(),
{
    if ups.len() > 0 {
        assert forall|i: int| 0 <= i < ups.drop_last().len() implies (#[trigger] ups.drop_last()[i]).update_type == UpdateType::Delete by {
            assert(ups.drop_last()[i] == ups[i]);
        }
        lemma_only_deletions_skip(ups.drop_last());
        assert(ups.last() == ups[ups.len() - 1]);
    }
}

/// The bookmarks to advance are found entry by entry: those of a longer
/// report are those of its first part followed by those of the rest.
pub proof fn lemma_advances_concat(e1: Seq<(UpdateView, (bool, Option<Seq<char>>))>, e2: Seq<(UpdateView, (bool, Option<Seq<char>>))>)
    ensures
        advances(e1 + e2) == advances(e1) + advances(e2),
    decreases e2.len(),
{
    if e2.len() == 0 {
        assert(e1 + e2 =~= e1);
        assert(advances(e1) + advances(e2) =~= advances(e1));
    } else {
        lemma_advances_concat(e1, e2.drop_last());
        assert((e1 + e2).drop_last() =~= e1 + e2.drop_last());
        assert((e1 + e2).last() == e2.last());
        match e2.last().1.1 {
            Some(c) => {
                assert(advances(e1) + advances(e2) =~= (advances(e1) + advances(e2.drop_last())).push(
                    (e2.last().0.bookmark, c),
                ));
            },
            None => {},
        }
    }
}

/// One report entry gives one bookmark to advance, with its fixup commit,
/// exactly when it has a fixup commit, whatever its update type and
/// whether its hooks passed; otherwise none.
pub proof fn lemma_advances_one(x: (UpdateView, (bool, Option<Seq<char>>)))
    ensures
        advances(seq![x]) == match x.1.1 {
            Some(c) => seq![(x.0.bookmark, c)],
            None => Seq::<(Seq<char>, Seq<char>)>::empty(),
        },
{
    assert(seq![x].drop_last() =~= Seq::<(UpdateView, (bool, Option<Seq<char>>))>::empty());
    assert(seq![x].last() == x);
    assert(advances(Seq::<(UpdateView, (bool, Option<Seq<char>>))>::empty()) == Seq::<(Seq<char>, Seq<char>)>::empty());
    assert(advances(seq![x]) == match x.1.1 {
        Some(c) => advances(seq![x].drop_last()).push((x.0.bookmark, c)),
        None => advances(seq![x].drop_last()),
    });
    match x.1.1 {
        Some(c) => {
            assert(Seq::<(Seq<char>, Seq<char>)>::empty().push((x.0.bookmark, c)) =~= seq![(x.0.bookmark, c)]);
        },
        None => {},
    }
}

/// Every entry with a fixup commit has its bookmark advanced to that
/// commit, and every bookmark advanced comes from such an entry; there are
/// as many as there are entries with a fixup commit.
pub proof fn lemma_advances_members(e: Seq<(UpdateView, (bool, Option<Seq<char>>))>)
    ensures
        forall|i: int| 0 <= i < e.len() && (#[trigger] e[i]).1.1 is Some ==> advances(e).contains(
            (e[i].0.bookmark, e[i].1.1->0),
        ),
        forall|j: int|
            #![trigger advances(e)[j]]
            0 <= j < advances(e).len() ==> exists|i: int| 0 <= i < e.len() && (#[trigger] e[i]).1.1
                == Some(advances(e)[j].1) && e[i].0.bookmark == advances(e)[j].0,
        advances(e).len() == e.filter(|x: (UpdateView, (bool, Option<Seq<char>>))| x.1.1 is Some).len(),
    decreases e.len(),
{
    if e.len() > 0 {
        let d = e.drop_last();
        lemma_advances_members(d);
        let r = advances(d);
        let x = e.last();
        reveal_with_fuel(Seq::filter, 1);
        assert(e.drop_last() == d);
        assert forall|i: int| 0 <= i < e.len() && (#[trigger] e[i]).1.1 is Some implies advances(e).contains(
            (e[i].0.bookmark, e[i].1.1->0),
        ) by {
            if i < d.len() {
                assert(e[i] == d[i]);
                let k = choose|k: int| 0 <= k < r.len() && r[k] == (d[i].0.bookmark, d[i].1.1->0);
                assert(advances(e)[k] == r[k]);
            } else {
                assert(advances(e)[r.len() as int] == (x.0.bookmark, x.1.1->0));
            }
        }
        assert forall|j: int|
            #![trigger advances(e)[j]]
            0 <= j < advances(e).len() implies exists|i: int| 0 <= i < e.len() && (#[trigger] e[i]).1.1
                == Some(advances(e)[j].1) && e[i].0.bookmark == advances(e)[j].0 by {
            if j < r.len() {
                assert(advances(e)[j] == r[j]);
                let i = choose|i: int| 0 <= i < d.len() && (#[trigger] d[i]).1.1 == Some(r[j].1) && d[i].0.bookmark == r[j].0;
                assert(e[i] == d[i]);
            } else {
                assert(e[e.len() - 1] == x);
            }
        }
    }
}

} // verus!
