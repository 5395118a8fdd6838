//! `jj-hooks init`: interactive setup of the user-level configuration.
//!
//! Three yes/no questions:
//! 1. Install a `jj push` alias that delegates to `jj-hp push`.
//! 2. Auto-advance bookmarks when hooks modify files.
//! 3. Install jjui actions and key bindings so that the push is reachable
//!    from inside jjui.
//!
//! The first two are written with `jj config set --user`; the third is
//! merged into jjui's configuration file. The questions go through the
//! [`Prompter`] trait so that callers can script the answers.

use vstd::prelude::*;

use crate::error::JjHooksError;
use crate::runner::Runner;
use crate::text::{cat, cat3, is_blank, str_eq, to_owned_string, trimmed, views};
use crate::toml_doc::{
    ArrayRead, ListRead, TomlElem, TomlEntry, TomlSlot, append_table, array_elems, entry_elem,
    field_of, list_fields, list_of, new_table, not_array, opt_list_view, parse_table,
    parsed_table, read_array, read_list_field, render_pretty, reparses, string_fields, table_slots, writable,
};
use crate::bookmark_updates::opt_view;

verus! {

/// One question put to a prompter: its text, the default it offered, and
/// what came back.
pub type PromptCall = (Seq<char>, bool, Result<bool, JjHooksError>);

/// Asks the user yes/no questions.
pub trait Prompter {
    /// Every question asked so far, in order, with its default and what
    /// came back, an error included. Each prompter keeps this record, as
    /// [`Prompter::confirm`] states; the body here only lets a prompter
    /// written outside verified code (where no record can be kept) compile,
    /// and no verified prompter can use it, since its `confirm` would then
    /// have to leave the record empty.
    open spec fn calls(&self) -> Seq<PromptCall> {
        Seq::empty()
    }

    /// The answer that the question of index `k` gets when it offers
    /// `default`, where it is fixed in advance; none where it is not (a
    /// prompter that asks a person fixes none).
    open spec fn replies(&self, k: int, default: bool) -> Option<bool> {
        None
    }

    /// Asks `message`; `default` is the answer offered when the user just
    /// confirms. The question and its result join the record, and the
    /// answer fixed in advance, where there is one, is the one given.
    fn confirm(&mut self, message: &str, default: bool) -> (r: Result<bool, JjHooksError>)
        ensures
            final(self).calls() == old(self).calls().push((message@, default, r)),
            forall|k: int, d: bool| #[trigger] final(self).replies(k, d) == old(self).replies(k, d),
            old(self).replies(old(self).calls().len() as int, default) matches Some(a) ==> r
                == Ok::<bool, JjHooksError>(a),
    ;
}

/// A prompter that gives pre-set answers in order, and then the default.
pub struct ScriptedPrompter {
    answers: Vec<bool>,
    /// How many pre-set answers were given, and every question asked.
    progress: (usize, Ghost<Seq<PromptCall>>),
}

/// Whether every question in `calls` got its answer from `script`: the
/// question of index `k` got `Ok(script[k])`, and each one after the script
/// ran out got its default; none got an error.
pub open spec fn follows_script(calls: Seq<PromptCall>, script: Seq<bool>) -> bool {
    forall|k: int|
        0 <= k < calls.len() ==> (#[trigger] calls[k]).2 == Ok::<bool, JjHooksError>(
            if k < script.len() {
                script[k]
            } else {
                calls[k].1
            },
        )
}

impl ScriptedPrompter {
    #[verifier::type_invariant]
    closed spec fn given_in_order(&self) -> bool {
        let asked = self.progress.1@.len();
        &&& self.progress.0 as int == if asked < self.answers@.len() {
            asked as int
        } else {
            self.answers@.len() as int
        }
        &&& follows_script(self.progress.1@, self.answers@)
    }

    /// The pre-set answers.
    pub closed spec fn script(&self) -> Seq<bool> {
        self.answers@
    }

    /// A prompter that answers with `answers` in order: the question of
    /// index `k` gets `answers[k]`, and every later one its default.
    pub fn new(answers: Vec<bool>) -> (r: Self)
        ensures
            r.calls() == Seq::<PromptCall>::empty(),
            r.script() == answers@,
            forall|k: int, d: bool|
                #[trigger] r.replies(k, d) == Some(
                    if 0 <= k < answers@.len() {
                        answers@[k]
                    } else {
                        d
                    },
                ),
    {
        ScriptedPrompter { answers, progress: (0, Ghost(Seq::empty())) }
    }
}

impl Prompter for ScriptedPrompter {
    closed spec fn calls(&self) -> Seq<PromptCall> {
        self.progress.1@
    }

    closed spec fn replies(&self, k: int, default: bool) -> Option<bool> {
        Some(
            if 0 <= k < self.answers@.len() {
                self.answers@[k]
            } else {
                default
            },
        )
    }

    /// The next pre-set answer, or `default` once they are used up: every
    /// question asked of a scripted prompter, however many, got its answer
    /// from the script.
    fn confirm(&mut self, message: &str, default: bool) -> (r: Result<bool, JjHooksError>)
        ensures
            final(self).script() == old(self).script(),
            follows_script(final(self).calls(), final(self).script()),
    {
        proof {
            use_type_invariant(&*self);
        }
        let next = self.progress.0;
        let (a, given) = if next < self.answers.len() {
            (self.answers[next], next + 1)
        } else {
            (default, next)
        };
        let ghost asked = self.progress.1@.push((message@, default, Ok::<bool, JjHooksError>(a)));
        proof {
            let old_log = self.progress.1@;
            assert forall|k: int| 0 <= k < asked.len() implies (#[trigger] asked[k]).2
                == Ok::<bool, JjHooksError>(
                if k < self.answers@.len() {
                    self.answers@[k]
                } else {
                    asked[k].1
                },
            ) by {
                if k < old_log.len() {
                    assert(asked[k] == old_log[k]);
                }
            }
        }
        self.progress = (given, Ghost(asked));
        Ok(a)
    }
}

/// Which integrations to install.
#[derive(Debug, Clone, Copy, PartialEq, Eq, Structural)]
pub struct InitPlan {
    pub install_alias: bool,
    pub advance_bookmarks: bool,
    pub install_jjui_actions: bool,
}

/// Which jjui items a merge added.
#[derive(Debug, Clone, Copy, PartialEq, Eq, Structural)]
pub struct AddedItems {
    pub added_jj_push: bool,
    pub added_jj_push_selected: bool,
    pub added_binding_x_p: bool,
    pub added_binding_x_p_caps: bool,
}

/// What `init` changed.
#[derive(Debug, Clone, Copy, PartialEq, Eq, Structural)]
pub struct InitOutcome {
    pub alias_set: bool,
    pub advance_bookmarks_set: bool,
    pub jjui_actions_added: AddedItems,
}

/// Nothing added.
pub open spec fn nothing_added() -> AddedItems {
    AddedItems {
        added_jj_push: false,
        added_jj_push_selected: false,
        added_binding_x_p: false,
        added_binding_x_p_caps: false,
    }
}

impl Default for AddedItems {
    fn default() -> (r: Self)
        ensures
            r == nothing_added(),
    {
        AddedItems {
            added_jj_push: false,
            added_jj_push_selected: false,
            added_binding_x_p: false,
            added_binding_x_p_caps: false,
        }
    }
}

/// The plan made of the three answers, in the order the questions are
/// asked.
pub fn plan_from_answers(install_alias: bool, advance_bookmarks: bool, install_jjui_actions: bool) -> (r: InitPlan)
    ensures
        r == (InitPlan { install_alias, advance_bookmarks, install_jjui_actions }),
{
    InitPlan { install_alias, advance_bookmarks, install_jjui_actions }
}

/// The first question: the push alias.
pub open spec fn alias_question() -> Seq<char> {
    "Set up `jj push` alias so it runs hooks before pushing?"@
}

/// The second question: advancing bookmarks.
pub open spec fn advance_question() -> Seq<char> {
    "Auto-advance bookmarks to fixup commits when hooks modify files?"@
}

/// The third question: the jjui actions.
pub open spec fn jjui_question() -> Seq<char> {
    "Install jjui actions/bindings so `jj push` is reachable from inside jjui?"@
}

/// The questions of [`plan`], in the order it asks them.
pub open spec fn plan_questions() -> Seq<Seq<char>> {
    seq![alias_question(), advance_question(), jjui_question()]
}

/// The plan made of the answers to the three questions.
pub open spec fn plan_of_calls(made: Seq<PromptCall>) -> InitPlan {
    InitPlan {
        install_alias: made[0].2->Ok_0,
        advance_bookmarks: made[1].2->Ok_0,
        install_jjui_actions: made[2].2->Ok_0,
    }
}

/// Whether `made`, the questions that [`plan`] asked, and its result `r`
/// are those of asking the three questions in order, each offering "no",
/// and stopping at the first error, which is then the result.
pub open spec fn plan_run(made: Seq<PromptCall>, r: Result<InitPlan, JjHooksError>) -> bool {
    &&& 1 <= made.len() <= 3
    &&& forall|k: int|
        0 <= k < made.len() ==> (#[trigger] made[k]).0 == plan_questions()[k] && !made[k].1
    &&& forall|k: int| 0 <= k < made.len() - 1 ==> (#[trigger] made[k]).2 is Ok
    &&& match made.last().2 {
        Err(e) => r == Err::<InitPlan, JjHooksError>(e),
        Ok(_) => made.len() == 3 && r == Ok::<InitPlan, JjHooksError>(plan_of_calls(made)),
    }
}

/// Asks one question of `plan`.
fn ask<P: Prompter>(prompter: &mut P, message: &str, Ghost(k): Ghost<int>) -> (r: Result<bool, JjHooksError>)
    requires
        message@ == plan_questions()[k],
    ensures
        final(prompter).calls() == old(prompter).calls().push((plan_questions()[k], false, r)),
        forall|j: int, d: bool| #[trigger] final(prompter).replies(j, d) == old(prompter).replies(j, d),
        old(prompter).replies(old(prompter).calls().len() as int, false) matches Some(a) ==> r
            == Ok::<bool, JjHooksError>(a),
{
    prompter.confirm(message, false)
}

/// Builds an [`InitPlan`] by asking, through `prompter`, which optional
/// integrations to install: the push alias, then advancing bookmarks, then
/// the jjui actions, each offering "no". The first error from the prompter
/// ends the questions and is returned. The detected runner is only
/// reported; the plan is the same whatever it is. The contract states the
/// questions asked, in the prompter's record, and the plan or error made of
/// what came back; answers fixed in advance are those used.
pub fn plan<P: Prompter>(detected_runner: Option<Runner>, prompter: &mut P) -> (r: Result<InitPlan, JjHooksError>)
    ensures
        ({
            let before = old(prompter).calls();
            let now = final(prompter).calls();
            &&& now.len() > before.len()
            &&& now.subrange(0, before.len() as int) == before
            &&& plan_run(now.skip(before.len() as int), r)
            &&& forall|k: int| before.len() <= k < now.len() ==> (old(prompter).replies(k, false)
                matches Some(a) ==> (#[trigger] now[k]).2 == Ok::<bool, JjHooksError>(a))
        }),
        forall|k: int, d: bool| #[trigger] final(prompter).replies(k, d) == old(prompter).replies(k, d),
{
    let ghost before = prompter.calls();
    proof {
        reveal_strlit("Set up `jj push` alias so it runs hooks before pushing?");
        reveal_strlit("Auto-advance bookmarks to fixup commits when hooks modify files?");
        reveal_strlit("Install jjui actions/bindings so `jj push` is reachable from inside jjui?");
    }
    let install_alias = match ask(prompter, "Set up `jj push` alias so it runs hooks before pushing?", Ghost(0)) {
        Ok(a) => a,
        Err(e) => {
            assert(prompter.calls().skip(before.len() as int) =~= seq![(plan_questions()[0], false, Err::<bool, JjHooksError>(e))]);
            return Err(e);
        },
    };
    let advance_bookmarks = match ask(prompter, "Auto-advance bookmarks to fixup commits when hooks modify files?", Ghost(1)) {
        Ok(a) => a,
        Err(e) => {
            assert(prompter.calls().skip(before.len() as int) =~= seq![
                (plan_questions()[0], false, Ok::<bool, JjHooksError>(install_alias)),
                (plan_questions()[1], false, Err::<bool, JjHooksError>(e)),
            ]);
            return Err(e);
        },
    };
    let install_jjui_actions = match ask(prompter, "Install jjui actions/bindings so `jj push` is reachable from inside jjui?", Ghost(2)) {
        Ok(a) => a,
        Err(e) => {
            assert(prompter.calls().skip(before.len() as int) =~= seq![
                (plan_questions()[0], false, Ok::<bool, JjHooksError>(install_alias)),
                (plan_questions()[1], false, Ok::<bool, JjHooksError>(advance_bookmarks)),
                (plan_questions()[2], false, Err::<bool, JjHooksError>(e)),
            ]);
            return Err(e);
        },
    };
    assert(prompter.calls().skip(before.len() as int) =~= seq![
        (plan_questions()[0], false, Ok::<bool, JjHooksError>(install_alias)),
        (plan_questions()[1], false, Ok::<bool, JjHooksError>(advance_bookmarks)),
        (plan_questions()[2], false, Ok::<bool, JjHooksError>(install_jjui_actions)),
    ]);
    Ok(plan_from_answers(install_alias, advance_bookmarks, install_jjui_actions))
}

/// When the answers to the three questions are fixed in advance, the plan
/// is made of them: a run of [`plan`] whose every question got its fixed
/// answer returns the plan of those answers.
pub proof fn lemma_plan_of_fixed_answers(made: Seq<PromptCall>, r: Result<InitPlan, JjHooksError>, answers: Seq<bool>)
    requires
        plan_run(made, r),
        answers.len() == 3,
        forall|k: int| 0 <= k < made.len() ==> (#[trigger] made[k]).2 == Ok::<bool, JjHooksError>(answers[k]),
    ensures
        r == Ok::<InitPlan, JjHooksError>(
            InitPlan {
                install_alias: answers[0],
                advance_bookmarks: answers[1],
                install_jjui_actions: answers[2],
            },
        ),
{
    assert(made[made.len() - 1].2 is Ok);
}

/// The plan depends on nothing but what the prompter answered: two runs of
/// [`plan`] whose questions got the same results asked the same questions
/// and ended the same.
pub proof fn lemma_plan_depends_on_answers(
    m1: Seq<PromptCall>,
    r1: Result<InitPlan, JjHooksError>,
    m2: Seq<PromptCall>,
    r2: Result<InitPlan, JjHooksError>,
)
    requires
        plan_run(m1, r1),
        plan_run(m2, r2),
        forall|k: int| 0 <= k < m1.len() && k < m2.len() ==> (#[trigger] m1[k]).2 == m2[k].2,
    ensures
        m1 == m2,
        r1 == r2,
{
    if m1.len() < m2.len() {
        assert(m1[m1.len() - 1].2 == m2[m1.len() - 1].2);
        assert(m2[m1.len() - 1].2 is Ok);
    } else if m2.len() < m1.len() {
        assert(m1[m2.len() - 1].2 == m2[m2.len() - 1].2);
        assert(m1[m2.len() - 1].2 is Ok);
    }
    assert(m1.len() == m2.len());
    assert forall|k: int| 0 <= k < m1.len() implies m1[k] == m2[k] by {
        assert(m1[k].2 == m2[k].2);
    }
    assert(m1 =~= m2);
}

/// The jj config key of the push alias.
pub open spec fn alias_key() -> Seq<char> {
    "aliases.push"@
}

/// The value of the push alias: run `jj-hp push` through `jj util exec`.
pub open spec fn alias_value() -> Seq<char> {
    "[\"util\", \"exec\", \"--\", \"jj-hp\", \"push\"]"@
}

/// The jj config key of the advance-bookmarks default.
pub open spec fn advance_key() -> Seq<char> {
    "jj-hooks.advance-bookmarks"@
}

/// The state of applying a plan.
#[derive(Debug, Clone, Copy, PartialEq, Eq, Structural)]
pub enum ApplyPhase {
    AwaitAlias,
    AwaitAdvance,
    AwaitJjuiText,
    AwaitJjuiWrite,
    Finished,
}

/// What the caller is asked to do next.
#[derive(Debug)]
pub enum ApplyAction {
    /// Run `jj config set --user <key> <value>` and answer `Done`.
    SetConfig { key: String, value: String },
    /// Read jjui's configuration file and answer with its text (empty text
    /// when the file does not exist).
    ReadJjui,
    /// Write `text` to jjui's configuration file, creating its directory,
    /// and answer `Done`.
    WriteJjui { text: String },
    /// Applying is over.
    Finish(InitOutcome),
    /// Applying failed: the jjui configuration could not be merged.
    Fail(JjHooksError),
}

/// The answer to an [`ApplyAction`].
#[derive(Debug)]
pub enum ApplyEvent {
    Done,
    JjuiText(String),
}

/// A plan being applied.
pub struct ApplyRun {
    plan: InitPlan,
    phase: ApplyPhase,
    added: AddedItems,
}

/// Whether `a` asks to set `key` to `value`.
pub open spec fn sets(a: ApplyAction, key: Seq<char>, value: Seq<char>) -> bool {
    a matches ApplyAction::SetConfig { key: k, value: v } && k@ == key && v@ == value
}

/// The outcome of applying `plan` when the jjui merge added `added`.
pub open spec fn apply_outcome(plan: InitPlan, added: AddedItems) -> InitOutcome {
    InitOutcome {
        alias_set: plan.install_alias,
        advance_bookmarks_set: plan.advance_bookmarks,
        jjui_actions_added: if plan.install_jjui_actions {
            added
        } else {
            nothing_added()
        },
    }
}

/// The step that comes in `phase` or after it, for `plan`: the next
/// requested change, or the finish.
pub open spec fn step_from(plan: InitPlan, phase: ApplyPhase, added: AddedItems, a: ApplyAction, next: ApplyPhase) -> bool {
    if phase == ApplyPhase::AwaitAlias && plan.install_alias {
        next == ApplyPhase::AwaitAlias && sets(a, alias_key(), alias_value())
    } else if (phase == ApplyPhase::AwaitAlias || phase == ApplyPhase::AwaitAdvance)
        && plan.advance_bookmarks {
        next == ApplyPhase::AwaitAdvance && sets(a, advance_key(), "true"@)
    } else if (phase == ApplyPhase::AwaitAlias || phase == ApplyPhase::AwaitAdvance
        || phase == ApplyPhase::AwaitJjuiText) && plan.install_jjui_actions {
        next == ApplyPhase::AwaitJjuiText && a is ReadJjui
    } else {
        next == ApplyPhase::Finished && a == ApplyAction::Finish(apply_outcome(plan, added))
    }
}

/// The phase after the one whose action was just done.
pub open spec fn after(p: ApplyPhase) -> ApplyPhase {
    match p {
        ApplyPhase::AwaitAlias => ApplyPhase::AwaitAdvance,
        ApplyPhase::AwaitAdvance => ApplyPhase::AwaitJjuiText,
        _ => ApplyPhase::Finished,
    }
}

/// Whether `a` is what merging the jjui items into the configuration text
/// `existing` asks for: writing the merged text, which then added `added`,
/// or failing with the merge's error.
pub open spec fn merge_action(existing: Seq<char>, a: ApplyAction, added: AddedItems) -> bool {
    match a {
        ApplyAction::WriteJjui { text } => merge_result(
            existing,
            Ok::<(String, AddedItems), JjHooksError>((text, added)),
        ),
        ApplyAction::Fail(e) => merge_result(existing, Err::<(String, AddedItems), JjHooksError>(e)),
        _ => false,
    }
}

impl ApplyRun {
    pub closed spec fn plan_of(&self) -> InitPlan {
        self.plan
    }

    pub closed spec fn phase_of(&self) -> ApplyPhase {
        self.phase
    }

    /// What the jjui merge added, once done.
    pub closed spec fn added_of(&self) -> AddedItems {
        self.added
    }

    /// Whether `e` is the kind of answer that the current action asks for.
    pub open spec fn accepts(&self, e: ApplyEvent) -> bool {
        match self.phase_of() {
            ApplyPhase::AwaitJjuiText => e is JjuiText,
            ApplyPhase::Finished => false,
            _ => e is Done,
        }
    }

    /// The action for the first step at or after `phase`.
    fn step(&mut self, phase: ApplyPhase) -> (r: ApplyAction)
        ensures
            final(self).plan == old(self).plan,
            final(self).added == old(self).added,
            step_from(old(self).plan, phase, old(self).added, r, final(self).phase),
    {
        if phase == ApplyPhase::AwaitAlias && self.plan.install_alias {
            self.phase = ApplyPhase::AwaitAlias;
            ApplyAction::SetConfig {
                key: to_owned_string("aliases.push"),
                value: to_owned_string("[\"util\", \"exec\", \"--\", \"jj-hp\", \"push\"]"),
            }
        } else if (phase == ApplyPhase::AwaitAlias || phase == ApplyPhase::AwaitAdvance)
            && self.plan.advance_bookmarks {
            self.phase = ApplyPhase::AwaitAdvance;
            ApplyAction::SetConfig {
                key: to_owned_string("jj-hooks.advance-bookmarks"),
                value: to_owned_string("true"),
            }
        } else if (phase == ApplyPhase::AwaitAlias || phase == ApplyPhase::AwaitAdvance
            || phase == ApplyPhase::AwaitJjuiText) && self.plan.install_jjui_actions {
            self.phase = ApplyPhase::AwaitJjuiText;
            ApplyAction::ReadJjui
        } else {
            self.phase = ApplyPhase::Finished;
            ApplyAction::Finish(InitOutcome {
                alias_set: self.plan.install_alias,
                advance_bookmarks_set: self.plan.advance_bookmarks,
                jjui_actions_added: if self.plan.install_jjui_actions {
                    self.added
                } else {
                    AddedItems::default()
                },
            })
        }
    }

    /// Takes the answer to the current action and names the next one. The
    /// text of jjui's configuration is merged here ([`add_jjui_actions`]):
    /// the merged text is handed back to be written, or the merge's error
    /// ends the run.
    pub fn resume(&mut self, e: ApplyEvent) -> (r: ApplyAction)
        requires
            old(self).accepts(e),
        ensures
            final(self).plan_of() == old(self).plan_of(),
            match e {
                ApplyEvent::JjuiText(t) => {
                    &&& merge_action(t@, r, final(self).added_of())
                    &&& final(self).phase_of() == if r is Fail {
                        ApplyPhase::Finished
                    } else {
                        ApplyPhase::AwaitJjuiWrite
                    }
                },
                ApplyEvent::Done => {
                    &&& final(self).added_of() == old(self).added_of()
                    &&& step_from(
                        old(self).plan_of(),
                        after(old(self).phase_of()),
                        old(self).added_of(),
                        r,
                        final(self).phase_of(),
                    )
                },
            },
    {
        match e {
            ApplyEvent::JjuiText(t) => match add_jjui_actions(t.as_str()) {
                Ok((text, added)) => {
                    self.added = added;
                    self.phase = ApplyPhase::AwaitJjuiWrite;
                    ApplyAction::WriteJjui { text }
                },
                Err(err) => {
                    self.phase = ApplyPhase::Finished;
                    ApplyAction::Fail(err)
                },
            },
            ApplyEvent::Done => {
                let next = if self.phase == ApplyPhase::AwaitAlias {
                    ApplyPhase::AwaitAdvance
                } else if self.phase == ApplyPhase::AwaitAdvance {
                    ApplyPhase::AwaitJjuiText
                } else {
                    ApplyPhase::Finished
                };
                self.step(next)
            },
        }
    }
}

/// Starts applying `plan` and names the first action: the push alias, then
/// the advance-bookmarks default, then the jjui merge, each only when the
/// plan asks for it, then the outcome.
pub fn apply(plan: &InitPlan) -> (r: (ApplyRun, ApplyAction))
    ensures
        r.0.plan_of() == *plan,
        r.0.added_of() == nothing_added(),
        step_from(*plan, ApplyPhase::AwaitAlias, nothing_added(), r.1, r.0.phase_of()),
{
    let mut run = ApplyRun { plan: *plan, phase: ApplyPhase::AwaitAlias, added: AddedItems::default() };
    let a = run.step(ApplyPhase::AwaitAlias);
    (run, a)
}

/// `base` joined with the relative path `name` as a path join does it: a
/// `/` goes between them unless `base` is empty or already ends in one.
pub open spec fn joined(base: Seq<char>, name: Seq<char>) -> Seq<char> {
    if base.len() == 0 {
        name
    } else if base.last() == '/' {
        base + name
    } else {
        base + "/"@ + name
    }
}

/// jjui's configuration file: `config.toml` in `$JJUI_CONFIG_DIR` when it
/// is set, else `jjui/config.toml` under `$XDG_CONFIG_HOME`, else under
/// `$HOME/.config`; none when none of the three is set.
pub open spec fn jjui_config_file(jjui_dir: Option<Seq<char>>, xdg_config_home: Option<Seq<char>>, home: Option<Seq<char>>) -> Option<Seq<char>> {
    match jjui_dir {
        Some(d) => Some(joined(d, "config.toml"@)),
        None => {
            let base = match xdg_config_home {
                Some(x) => Some(x),
                None => match home {
                    Some(h) => Some(joined(h, ".config"@)),
                    None => None,
                },
            };
            match base {
                Some(b) => Some(joined(joined(b, "jjui"@), "config.toml"@)),
                None => None,
            }
        },
    }
}

/// `base` joined with the relative path `name`.
fn join_path(base: &str, name: &str) -> (r: String)
    ensures
        r@ == joined(base@, name@),
{
    proof {
        reveal_strlit("/");
    }
    let n = base.unicode_len();
    if n == 0 {
        to_owned_string(name)
    } else if base.get_char(n - 1) == '/' {
        cat(base, name)
    } else {
        cat3(base, "/", name)
    }
}

/// The path of jjui's configuration file, from the values of
/// `JJUI_CONFIG_DIR`, `XDG_CONFIG_HOME` and `HOME`, each where it is set;
/// none when none of them is.
pub fn jjui_config_path(jjui_dir: Option<String>, xdg_config_home: Option<String>, home: Option<String>) -> (r: Option<String>)
    ensures
        opt_view(r) == jjui_config_file(opt_view(jjui_dir), opt_view(xdg_config_home), opt_view(home)),
{
    if let Some(d) = jjui_dir {
        return Some(join_path(d.as_str(), "config.toml"));
    }
    let base = match xdg_config_home {
        Some(x) => x,
        None => match home {
            Some(h) => join_path(h.as_str(), ".config"),
            None => return None,
        },
    };
    let dir = join_path(base.as_str(), "jjui");
    Some(join_path(dir.as_str(), "config.toml"))
}

/// Each change that the plan asks for is requested before the run can
/// finish, in order, and the outcome reports only what was requested: from
/// the start, the alias is set first when asked for; the advance-bookmarks
/// default is set next whenever asked for, whatever the alias; the jjui
/// merge comes before the finish whenever asked for; and a finish that
/// reports a setting comes only after the step that set it.
pub proof fn lemma_apply_order(plan: InitPlan, phase: ApplyPhase, added: AddedItems, a: ApplyAction, next: ApplyPhase)
    requires
        step_from(plan, phase, added, a, next),
    ensures
        phase == ApplyPhase::AwaitAlias && plan.install_alias ==> (a matches ApplyAction::SetConfig {
            key,
            value,
        } && key@ == "aliases.push"@ && value@ == "[\"util\", \"exec\", \"--\", \"jj-hp\", \"push\"]"@),
        plan.advance_bookmarks && (phase == ApplyPhase::AwaitAdvance || (phase == ApplyPhase::AwaitAlias
            && !plan.install_alias)) ==> (a matches ApplyAction::SetConfig { key, value } && key@
            == "jj-hooks.advance-bookmarks"@ && value@ == "true"@ && next == ApplyPhase::AwaitAdvance),
        plan.install_jjui_actions && (phase == ApplyPhase::AwaitAlias || phase == ApplyPhase::AwaitAdvance
            || phase == ApplyPhase::AwaitJjuiText) ==> a is ReadJjui || a is SetConfig,
        a matches ApplyAction::Finish(o) ==> {
            &&& o.alias_set == plan.install_alias
            &&& o.advance_bookmarks_set == plan.advance_bookmarks
            &&& o.alias_set ==> phase != ApplyPhase::AwaitAlias
            &&& o.advance_bookmarks_set ==> (phase != ApplyPhase::AwaitAlias && phase
                != ApplyPhase::AwaitAdvance)
            &&& !plan.install_jjui_actions ==> o.jjui_actions_added == nothing_added()
        },
{
}

/// What comes after each change is done: after the alias, the
/// advance-bookmarks default when the plan asks for it; after that, the
/// jjui merge when asked for; after the jjui file is written, the finish.
pub proof fn lemma_apply_next_steps(plan: InitPlan, added: AddedItems, a: ApplyAction, next: ApplyPhase, done: ApplyPhase)
    requires
        done == ApplyPhase::AwaitAlias || done == ApplyPhase::AwaitAdvance || done == ApplyPhase::AwaitJjuiWrite,
        step_from(plan, after(done), added, a, next),
    ensures
        done == ApplyPhase::AwaitAlias && plan.advance_bookmarks ==> (a matches ApplyAction::SetConfig {
            key,
            value,
        } && key@ == "jj-hooks.advance-bookmarks"@ && value@ == "true"@),
        done != ApplyPhase::AwaitJjuiWrite && !(done == ApplyPhase::AwaitAlias && plan.advance_bookmarks)
            && plan.install_jjui_actions ==> a is ReadJjui,
        done == ApplyPhase::AwaitJjuiWrite ==> a is Finish && next == ApplyPhase::Finished,
{
}

/// The end of applying a plan once jjui's configuration text `t` was merged
/// and the run asked to write the result: after the write, the run
/// finishes, reporting the alias and advance settings that the plan asked
/// for and exactly the jjui items that the merge of `t` added; the text
/// written is the merge of `t`.
pub proof fn lemma_apply_writes_merge(
    plan: InitPlan,
    t: Seq<char>,
    written: ApplyAction,
    added: AddedItems,
    finish: ApplyAction,
    next: ApplyPhase,
)
    requires
        plan.install_jjui_actions,
        merge_action(t, written, added),
        written is WriteJjui,
        step_from(plan, after(ApplyPhase::AwaitJjuiWrite), added, finish, next),
    ensures
        merge_result(t, Ok::<(String, AddedItems), JjHooksError>((written->text, added))),
        next == ApplyPhase::Finished,
        finish == ApplyAction::Finish(
            InitOutcome {
                alias_set: plan.install_alias,
                advance_bookmarks_set: plan.advance_bookmarks,
                jjui_actions_added: added,
            },
        ),
{
}

/// The lua body of the `jj-push` action: push through `jj-hp` directly,
/// so that the action does not depend on the `jj push` alias.
pub open spec fn lua_push() -> Seq<char> {
    "  jj_async(\"util\", \"exec\", \"--\", \"jj-hp\", \"push\")\n  revisions.refresh()\n"@
}

/// The lua body of the `jj-push-selected` action: push the selected
/// revision through `jj-hp`.
pub open spec fn lua_push_selected() -> Seq<char> {
    "  jj_async(\"util\", \"exec\", \"--\", \"jj-hp\", \"push\", \"-r\", context.commit_id())\n  revisions.refresh()\n"@
}

/// A jjui action: its name and lua body.
pub open spec fn action_item(name: Seq<char>, lua: Seq<char>) -> TomlElem {
    TomlElem {
        strings: Map::empty().insert("name"@, name).insert("lua"@, lua),
        lists: Map::empty(),
        others: Map::empty(),
        scalar: None,
    }
}

/// The key sequence `x <last>`.
pub open spec fn binding_keys(last: Seq<char>) -> Seq<Seq<char>> {
    seq!["x"@, last]
}

/// A jjui key binding in the revisions scope: the action it runs on the key
/// sequence `x <last>`, and its description.
pub open spec fn binding_item(action: Seq<char>, last: Seq<char>, desc: Seq<char>) -> TomlElem {
    TomlElem {
        strings: Map::empty().insert("action"@, action).insert("scope"@, "revisions"@).insert(
            "desc"@,
            desc,
        ),
        lists: Map::empty().insert("seq"@, binding_keys(last)),
        others: Map::empty(),
        scalar: None,
    }
}

/// The `jj-push` action.
pub open spec fn push_action() -> TomlElem {
    action_item("jj-push"@, lua_push())
}

/// The `jj-push-selected` action.
pub open spec fn push_selected_action() -> TomlElem {
    action_item("jj-push-selected"@, lua_push_selected())
}

/// The `x p` binding of `jj-push`.
pub open spec fn push_binding() -> TomlElem {
    binding_item("jj-push"@, "p"@, "jj push"@)
}

/// The `x P` binding of `jj-push-selected`.
pub open spec fn push_selected_binding() -> TomlElem {
    binding_item("jj-push-selected"@, "P"@, "jj push selected bookmark(s)"@)
}

/// Whether some element has string field `f` equal to `v`.
pub open spec fn has_field(elems: Seq<TomlElem>, f: Seq<char>, v: Seq<char>) -> bool {
    exists|i: int| 0 <= i < elems.len() && field_of((#[trigger] elems[i]).strings, f) == Some(v)
}

/// Whether some action is named `name`.
pub open spec fn has_action(elems: Seq<TomlElem>, name: Seq<char>) -> bool {
    has_field(elems, "name"@, name)
}

/// Whether `e` binds `action` to the key sequence `x <last>`.
pub open spec fn is_binding(e: TomlElem, action: Seq<char>, last: Seq<char>) -> bool {
    &&& field_of(e.strings, "action"@) == Some(action)
    &&& list_of(e.lists, "seq"@) == Some(binding_keys(last))
}

/// Whether some binding binds `action` to the key sequence `x <last>`: a
/// binding counts only when both its action and its key sequence match.
pub open spec fn has_binding(elems: Seq<TomlElem>, action: Seq<char>, last: Seq<char>) -> bool {
    exists|i: int| 0 <= i < elems.len() && is_binding(#[trigger] elems[i], action, last)
}

/// `elems`, with `item` appended unless it is `present`.
pub open spec fn append_unless(elems: Seq<TomlElem>, present: bool, item: TomlElem) -> Seq<TomlElem> {
    if present {
        elems
    } else {
        elems.push(item)
    }
}

/// The actions after the merge: the existing ones, then `jj-push` and
/// `jj-push-selected` where no action has that name.
pub open spec fn merged_actions(a: Seq<TomlElem>) -> Seq<TomlElem> {
    append_unless(
        append_unless(a, has_action(a, "jj-push"@), push_action()),
        has_action(a, "jj-push-selected"@),
        push_selected_action(),
    )
}

/// The bindings after the merge: the existing ones, then the `x p` and
/// `x P` bindings where no binding has that action and key sequence.
pub open spec fn merged_bindings(b: Seq<TomlElem>) -> Seq<TomlElem> {
    append_unless(
        append_unless(b, has_binding(b, "jj-push"@, "p"@), push_binding()),
        has_binding(b, "jj-push-selected"@, "P"@),
        push_selected_binding(),
    )
}

/// The error text when `actions` is not an array.
pub open spec fn actions_not_array() -> Seq<char> {
    "jjui config: `actions` is not an array"@
}

/// The error text when `bindings` is not an array.
pub open spec fn bindings_not_array() -> Seq<char> {
    "jjui config: `bindings` is not an array"@
}

/// The merge of the jjui items into a document: the `jj-push` and
/// `jj-push-selected` actions, unless an action of that name exists, and
/// their `x p` and `x P` bindings, unless a binding with that action and key
/// sequence exists. Gives the new slots and what was added, or the error
/// text.
pub open spec fn jjui_merge(slots: Map<Seq<char>, TomlSlot>) -> Result<(Map<Seq<char>, TomlSlot>, AddedItems), Seq<char>> {
    if not_array(slots, "actions"@) {
        Err(actions_not_array())
    } else {
        let a = array_elems(slots, "actions"@);
        let s1 = if has_action(a, "jj-push"@) && has_action(a, "jj-push-selected"@) {
            slots
        } else {
            slots.insert("actions"@, TomlSlot::Array(merged_actions(a)))
        };
        if not_array(s1, "bindings"@) {
            Err(bindings_not_array())
        } else {
            let b = array_elems(s1, "bindings"@);
            let s2 = if has_binding(b, "jj-push"@, "p"@) && has_binding(b, "jj-push-selected"@, "P"@) {
                s1
            } else {
                s1.insert("bindings"@, TomlSlot::Array(merged_bindings(b)))
            };
            Ok(
                (
                    s2,
                    AddedItems {
                        added_jj_push: !has_action(a, "jj-push"@),
                        added_jj_push_selected: !has_action(a, "jj-push-selected"@),
                        added_binding_x_p: !has_binding(b, "jj-push"@, "p"@),
                        added_binding_x_p_caps: !has_binding(b, "jj-push-selected"@, "P"@),
                    },
                ),
            )
        }
    }
}

/// Whether some of `v` is `x`.
fn contains_value(v: &Vec<Option<String>>, x: &str) -> (r: bool)
    ensures
        r == exists|i: int| 0 <= i < v@.len() && opt_view(#[trigger] v@[i]) == Some(x@),
{
    let mut i: usize = 0;
    while i < v.len()
        invariant
            i <= v.len(),
            forall|k: int| 0 <= k < i ==> opt_view(#[trigger] v@[k]) != Some(x@),
        decreases v.len() - i,
    {
        if let Some(s) = &v[i] {
            if str_eq(s.as_str(), x) {
                return true;
            }
        }
        i = i + 1;
    }
    false
}

/// Whether the array named `key` holds an element whose string field `f`
/// is `x`, from what [`read_array`] reported of it.
fn reported_has(read: &ArrayRead, x: &str, Ghost(slots): Ghost<Map<Seq<char>, TomlSlot>>, Ghost(key): Ghost<Seq<char>>, Ghost(f): Ghost<Seq<char>>) -> (r: bool)
    requires
        crate::toml_doc::reads(*read, slots, key, f),
        !not_array(slots, key),
    ensures
        r == has_field(array_elems(slots, key), f, x@),
{
    match read {
        ArrayRead::Values(v) => {
            let r = contains_value(v, x);
            proof {
                let e = array_elems(slots, key);
                if r {
                    let i = choose|i: int| 0 <= i < v@.len() && opt_view(#[trigger] v@[i]) == Some(x@);
                    assert(field_of(e[i].strings, f) == Some(x@));
                }
                if has_field(e, f, x@) {
                    let i = choose|i: int| 0 <= i < e.len() && field_of((#[trigger] e[i]).strings, f) == Some(x@);
                    assert(opt_view(v@[i]) == Some(x@));
                }
            }
            r
        },
        _ => false,
    }
}

/// Whether an optional list is the key sequence `x <last>`.
fn is_keys(o: &Option<Vec<String>>, last: &str) -> (r: bool)
    ensures
        r == (opt_list_view(*o) == Some(binding_keys(last@))),
{
    proof {
        reveal_strlit("x");
    }
    match o {
        Some(v) => {
            if v.len() != 2 {
                proof {
                    if opt_list_view(*o) == Some(binding_keys(last@)) {
                        assert(views(v@).len() == 2);
                    }
                }
                return false;
            }
            let first = str_eq(v[0].as_str(), "x");
            let second = str_eq(v[1].as_str(), last);
            proof {
                let w = views(v@);
                assert(w[0] == v@[0]@);
                assert(w[1] == v@[1]@);
                if first && second {
                    assert(w =~= binding_keys(last@));
                }
                if w == binding_keys(last@) {
                    assert(w[0] == "x"@);
                    assert(w[1] == last@);
                }
            }
            first && second
        },
        None => false,
    }
}

/// Whether the bindings, whose `action` fields are `actions` and whose
/// `seq` fields are `seqs`, hold one binding `action` to `x <last>`.
fn reported_binding(actions: &Vec<Option<String>>, seqs: &Vec<Option<Vec<String>>>, action: &str, last: &str, Ghost(elems): Ghost<Seq<TomlElem>>) -> (r: bool)
    requires
        crate::toml_doc::field_values(actions@, elems, "action"@),
        crate::toml_doc::list_values(seqs@, elems, "seq"@),
    ensures
        r == has_binding(elems, action@, last@),
{
    let mut i: usize = 0;
    while i < actions.len()
        invariant
            crate::toml_doc::field_values(actions@, elems, "action"@),
            crate::toml_doc::list_values(seqs@, elems, "seq"@),
            i <= actions.len(),
            forall|k: int| 0 <= k < i ==> !is_binding(#[trigger] elems[k], action@, last@),
        decreases actions.len() - i,
    {
        let named = match &actions[i] {
            Some(s) => str_eq(s.as_str(), action),
            None => false,
        };
        let keyed = is_keys(&seqs[i], last);
        proof {
            assert(opt_view(actions@[i as int]) == field_of(elems[i as int].strings, "action"@));
            assert(opt_list_view(seqs@[i as int]) == list_of(elems[i as int].lists, "seq"@));
        }
        if named && keyed {
            assert(is_binding(elems[i as int], action@, last@));
            return true;
        }
        i = i + 1;
    }
    false
}

/// The table of a jjui action.
fn action_entry(name: &str, lua: &str) -> (r: TomlEntry)
    ensures
        entry_elem(r) == action_item(name@, lua@),
{
    let r = TomlEntry {
        strings: vec![
            (to_owned_string("name"), to_owned_string(name)),
            (to_owned_string("lua"), to_owned_string(lua)),
        ],
        lists: Vec::new(),
    };
    proof {
        let s = r.strings@;
        assert(s.drop_last().drop_last() =~= Seq::<(String, String)>::empty());
        assert(s.drop_last().last() == s[0]);
        reveal_with_fuel(string_fields, 3);
        assert(string_fields(s) =~= action_item(name@, lua@).strings);
        assert(list_fields(r.lists@) =~= Map::empty());
        assert(entry_elem(r).lists =~= Map::<Seq<char>, Seq<Seq<char>>>::empty());
    }
    r
}

/// The table of a jjui key binding of `action` to `x <last>` in the
/// revisions scope.
fn binding_entry(action: &str, last: &str, desc: &str) -> (r: TomlEntry)
    ensures
        entry_elem(r) == binding_item(action@, last@, desc@),
{
    let r = TomlEntry {
        strings: vec![
            (to_owned_string("action"), to_owned_string(action)),
            (to_owned_string("scope"), to_owned_string("revisions")),
            (to_owned_string("desc"), to_owned_string(desc)),
        ],
        lists: vec![(to_owned_string("seq"), vec![to_owned_string("x"), to_owned_string(last)])],
    };
    proof {
        let s = r.strings@;
        assert(s.drop_last().drop_last().drop_last() =~= Seq::<(String, String)>::empty());
        assert(s.drop_last().last() == s[1]);
        assert(s.drop_last().drop_last().last() == s[0]);
        reveal_with_fuel(string_fields, 4);
        assert(string_fields(s) =~= binding_item(action@, last@, desc@).strings);
        let l = r.lists@;
        assert(l.drop_last() =~= Seq::<(String, Vec<String>)>::empty());
        reveal_with_fuel(list_fields, 2);
        let keys = views(l[0].1@);
        assert(keys =~= binding_keys(last@));
        assert(list_fields(l) =~= Map::empty().insert("seq"@, binding_keys(last@)));
        reveal_strlit("seq");
        reveal_strlit("action");
        reveal_strlit("scope");
        reveal_strlit("desc");
        assert("seq"@.len() != "action"@.len());
        assert("seq"@.len() != "scope"@.len());
        assert("seq"@ != "desc"@) by {
            assert("seq"@[0] != "desc"@[0]);
        }
        assert(entry_elem(r).lists =~= binding_item(action@, last@, desc@).lists);
    }
    r
}

proof fn lemma_distinct_keys()
    ensures
        "actions"@ != "bindings"@,
{
    reveal_strlit("actions");
    reveal_strlit("bindings");
    assert("actions"@.len() != "bindings"@.len());
}

/// Merges the jjui actions and bindings into the document `doc`.
pub fn merge_jjui_items(doc: &mut toml::Table) -> (r: Result<AddedItems, JjHooksError>)
    ensures
        match jjui_merge(table_slots(*old(doc))) {
            Err(msg) => r matches Err(JjHooksError::Parse(m)) && m@ == msg,
            Ok((slots, added)) => r == Ok::<AddedItems, JjHooksError>(added) && table_slots(*final(doc)) == slots,
        },
        writable(*final(doc)) == writable(*old(doc)),
{
    let ghost s0 = table_slots(*doc);
    proof { lemma_distinct_keys(); }
    let actions = read_array(doc, "actions", "name");
    if let ArrayRead::NotArray = actions {
        return Err(JjHooksError::Parse(to_owned_string("jjui config: `actions` is not an array")));
    }
    let has_push = reported_has(&actions, "jj-push", Ghost(s0), Ghost("actions"@), Ghost("name"@));
    let has_selected = reported_has(&actions, "jj-push-selected", Ghost(s0), Ghost("actions"@), Ghost("name"@));
    let ghost a = array_elems(s0, "actions"@);
    if !has_push {
        append_table(doc, "actions", &action_entry("jj-push", "  jj_async(\"util\", \"exec\", \"--\", \"jj-hp\", \"push\")\n  revisions.refresh()\n"));
    }
    proof {
        if !has_push {
            assert(array_elems(table_slots(*doc), "actions"@) == a.push(push_action()));
        }
    }
    if !has_selected {
        append_table(doc, "actions", &action_entry("jj-push-selected", "  jj_async(\"util\", \"exec\", \"--\", \"jj-hp\", \"push\", \"-r\", context.commit_id())\n  revisions.refresh()\n"));
    }
    let ghost s1 = table_slots(*doc);
    proof {
        let expect = if has_action(a, "jj-push"@) && has_action(a, "jj-push-selected"@) {
            s0
        } else {
            s0.insert("actions"@, TomlSlot::Array(merged_actions(a)))
        };
        assert(s1 =~= expect);
    }
    let names = read_array(doc, "bindings", "action");
    let seqs = read_list_field(doc, "bindings", "seq");
    let ghost b = array_elems(s1, "bindings"@);
    let (has_xp, has_xp_caps) = match (&names, &seqs) {
        (ArrayRead::Values(n), ListRead::Values(q)) => (
            reported_binding(n, q, "jj-push", "p", Ghost(b)),
            reported_binding(n, q, "jj-push-selected", "P", Ghost(b)),
        ),
        (ArrayRead::NotArray, _) => {
            return Err(JjHooksError::Parse(to_owned_string("jjui config: `bindings` is not an array")));
        },
        _ => (false, false),
    };
    if !has_xp {
        append_table(doc, "bindings", &binding_entry("jj-push", "p", "jj push"));
    }
    proof {
        if !has_xp {
            assert(array_elems(table_slots(*doc), "bindings"@) == b.push(push_binding()));
        }
    }
    if !has_xp_caps {
        append_table(doc, "bindings", &binding_entry("jj-push-selected", "P", "jj push selected bookmark(s)"));
    }
    proof {
        let expect = if has_binding(b, "jj-push"@, "p"@) && has_binding(b, "jj-push-selected"@, "P"@) {
            s1
        } else {
            s1.insert("bindings"@, TomlSlot::Array(merged_bindings(b)))
        };
        assert(table_slots(*doc) =~= expect);
    }
    Ok(AddedItems {
        added_jj_push: !has_push,
        added_jj_push_selected: !has_selected,
        added_binding_x_p: !has_xp,
        added_binding_x_p_caps: !has_xp_caps,
    })
}

/// The slots of the document that `existing` holds: an empty one for blank
/// text.
pub open spec fn existing_slots(existing: Seq<char>) -> Option<Map<Seq<char>, TomlSlot>> {
    if trimmed(existing).len() == 0 {
        Some(crate::toml_doc::no_slots())
    } else {
        parsed_table(existing)
    }
}

/// Whether `r` is what merging the jjui items into the configuration text
/// `existing` gives: the error when the text is not a TOML document (its
/// message starting `jjui config: `) or the merge fails, else the merged
/// text, which reads back as the merged document where it parses, and what
/// was added.
pub open spec fn merge_result(existing: Seq<char>, r: Result<(String, AddedItems), JjHooksError>) -> bool {
    match existing_slots(existing) {
        None => r matches Err(JjHooksError::Parse(m)) && m@.len() >= 13 && m@.subrange(0, 13)
            == "jjui config: "@,
        Some(slots) => match jjui_merge(slots) {
            Err(msg) => r matches Err(JjHooksError::Parse(m)) && m@ == msg,
            Ok((merged, added)) => r matches Ok((text, a)) && a == added && reparses(text@, merged),
        },
    }
}

/// Merges the `jj-push` and `jj-push-selected` actions and their `x p` /
/// `x P` bindings into the jjui configuration text `existing` (blank text is
/// an empty document). Actions with one of those names, and bindings with
/// the same action and key sequence, are left untouched; only the missing
/// items are appended. Returns the new text and which items were added; the
/// text reads back as the merged document wherever it parses (a document
/// nested deeper than the parser's limit renders to a text that does not).
pub fn add_jjui_actions(existing: &str) -> (r: Result<(String, AddedItems), JjHooksError>)
    ensures
        merge_result(existing@, r),
{
    let mut doc = if is_blank(existing) {
        new_table()
    } else {
        match parse_table(existing) {
            Ok(t) => t,
            Err(e) => {
                let m = cat("jjui config: ", e.as_str());
                proof { reveal_strlit("jjui config: "); }
                assert(m@.subrange(0, 13) =~= "jjui config: "@);
                return Err(JjHooksError::Parse(m));
            },
        }
    };
    let added = merge_jjui_items(&mut doc)?;
    match render_pretty(&doc) {
        Ok(text) => Ok((text, added)),
        Err(e) => Err(JjHooksError::Parse(cat("serializing jjui config: ", e.as_str()))),
    }
}

proof fn lemma_item_facts()
    ensures
        has_action(seq![push_action()], "jj-push"@),
        is_binding(push_binding(), "jj-push"@, "p"@),
        is_binding(push_selected_binding(), "jj-push-selected"@, "P"@),
        field_of(push_action().strings, "name"@) == Some("jj-push"@),
        field_of(push_selected_action().strings, "name"@) == Some("jj-push-selected"@),
        "actions"@ != "bindings"@,
{
    reveal_strlit("name");
    reveal_strlit("lua");
    reveal_strlit("action");
    reveal_strlit("scope");
    reveal_strlit("desc");
    lemma_distinct_keys();
    assert("name"@.len() != "lua"@.len());
    assert("action"@.len() != "scope"@.len());
    assert("action"@.len() != "desc"@.len());
    assert(seq![push_action()][0] == push_action());
}

proof fn lemma_merged_actions(a: Seq<TomlElem>)
    ensures
        has_action(merged_actions(a), "jj-push"@),
        has_action(merged_actions(a), "jj-push-selected"@),
        merged_actions(a).len() >= a.len(),
        merged_actions(a).subrange(0, a.len() as int) == a,
{
    lemma_item_facts();
    let m = merged_actions(a);
    let e1 = append_unless(a, has_action(a, "jj-push"@), push_action());
    assert(e1.subrange(0, a.len() as int) =~= a);
    assert(m.subrange(0, a.len() as int) =~= a);
    if has_action(a, "jj-push"@) {
        let i = choose|i: int| 0 <= i < a.len() && field_of((#[trigger] a[i]).strings, "name"@) == Some("jj-push"@);
        assert(m[i] == a[i]);
    } else {
        assert(m[a.len() as int] == push_action());
    }
    if has_action(a, "jj-push-selected"@) {
        let i = choose|i: int| 0 <= i < a.len() && field_of((#[trigger] a[i]).strings, "name"@) == Some("jj-push-selected"@);
        assert(m[i] == a[i]);
    } else {
        assert(m[m.len() - 1] == push_selected_action());
    }
}

proof fn lemma_merged_bindings(b: Seq<TomlElem>)
    ensures
        has_binding(merged_bindings(b), "jj-push"@, "p"@),
        has_binding(merged_bindings(b), "jj-push-selected"@, "P"@),
        merged_bindings(b).len() >= b.len(),
        merged_bindings(b).subrange(0, b.len() as int) == b,
{
    lemma_item_facts();
    let m = merged_bindings(b);
    let e1 = append_unless(b, has_binding(b, "jj-push"@, "p"@), push_binding());
    assert(e1.subrange(0, b.len() as int) =~= b);
    assert(m.subrange(0, b.len() as int) =~= b);
    if has_binding(b, "jj-push"@, "p"@) {
        let i = choose|i: int| 0 <= i < b.len() && is_binding(#[trigger] b[i], "jj-push"@, "p"@);
        assert(m[i] == b[i]);
    } else {
        assert(m[b.len() as int] == push_binding());
    }
    if has_binding(b, "jj-push-selected"@, "P"@) {
        let i = choose|i: int| 0 <= i < b.len() && is_binding(#[trigger] b[i], "jj-push-selected"@, "P"@);
        assert(m[i] == b[i]);
    } else {
        assert(m[m.len() - 1] == push_selected_binding());
    }
}

/// Merging the jjui items a second time adds nothing and changes nothing.
pub proof fn lemma_jjui_merge_idempotent(slots: Map<Seq<char>, TomlSlot>)
    requires
        jjui_merge(slots) is Ok,
    ensures
        ({
            let s2 = jjui_merge(slots)->Ok_0.0;
            jjui_merge(s2) == Ok::<(Map<Seq<char>, TomlSlot>, AddedItems), Seq<char>>((s2, nothing_added()))
        }),
{
    lemma_item_facts();
    let ak = "actions"@;
    let bk = "bindings"@;
    let a = array_elems(slots, ak);
    lemma_merged_actions(a);
    let s1 = if has_action(a, "jj-push"@) && has_action(a, "jj-push-selected"@) {
        slots
    } else {
        slots.insert(ak, TomlSlot::Array(merged_actions(a)))
    };
    if has_action(a, "jj-push"@) && has_action(a, "jj-push-selected"@) {
        assert(slots.contains_key(ak));
    }
    assert(has_action(array_elems(s1, ak), "jj-push"@) && has_action(array_elems(s1, ak), "jj-push-selected"@)) by {
        if has_action(a, "jj-push"@) && has_action(a, "jj-push-selected"@) {
        } else {
            assert(array_elems(s1, ak) == merged_actions(a));
        }
    }
    let b = array_elems(s1, bk);
    lemma_merged_bindings(b);
    let s2 = jjui_merge(slots)->Ok_0.0;
    assert(array_elems(s2, ak) == array_elems(s1, ak));
    assert(!not_array(s2, ak));
    assert(has_binding(array_elems(s2, bk), "jj-push"@, "p"@) && has_binding(array_elems(s2, bk), "jj-push-selected"@, "P"@)) by {
        if has_binding(b, "jj-push"@, "p"@) && has_binding(b, "jj-push-selected"@, "P"@) {
        } else {
            assert(array_elems(s2, bk) == merged_bindings(b));
        }
    }
    if has_binding(b, "jj-push"@, "p"@) && has_binding(b, "jj-push-selected"@, "P"@) {
        if !s1.contains_key(bk) {
            assert(b.len() == 0);
        }
    }
    assert(!not_array(s2, bk));
}

/// Merging keeps every element the user already had, in place: each array
/// only grows at its end, and every other key keeps its value.
pub proof fn lemma_jjui_merge_preserves(slots: Map<Seq<char>, TomlSlot>)
    requires
        jjui_merge(slots) is Ok,
    ensures
        ({
            let s2 = jjui_merge(slots)->Ok_0.0;
            &&& array_elems(s2, "actions"@).len() >= array_elems(slots, "actions"@).len()
            &&& array_elems(s2, "actions"@).subrange(0, array_elems(slots, "actions"@).len() as int)
                == array_elems(slots, "actions"@)
            &&& array_elems(s2, "bindings"@).len() >= array_elems(slots, "bindings"@).len()
            &&& array_elems(s2, "bindings"@).subrange(0, array_elems(slots, "bindings"@).len() as int)
                == array_elems(slots, "bindings"@)
            &&& forall|k: Seq<char>| k != "actions"@ && k != "bindings"@ ==> (s2.contains_key(k) == slots.contains_key(k) && (slots.contains_key(k) ==> s2[k] == slots[k]))
        }),
{
    lemma_item_facts();
    let ak = "actions"@;
    let bk = "bindings"@;
    let a = array_elems(slots, ak);
    lemma_merged_actions(a);
    let s1 = if has_action(a, "jj-push"@) && has_action(a, "jj-push-selected"@) {
        slots
    } else {
        slots.insert(ak, TomlSlot::Array(merged_actions(a)))
    };
    let b = array_elems(s1, bk);
    lemma_merged_bindings(b);
    assert(b == array_elems(slots, bk));
    let s2 = jjui_merge(slots)->Ok_0.0;
    assert(array_elems(s2, ak) == array_elems(s1, ak));
    assert(array_elems(s1, ak).subrange(0, a.len() as int) =~= a);
    assert(array_elems(s2, bk).subrange(0, b.len() as int) =~= b);
}

/// Each array grows by exactly the items that the merge reports added.
pub proof fn lemma_jjui_merge_counts(slots: Map<Seq<char>, TomlSlot>)
    requires
        jjui_merge(slots) is Ok,
    ensures
        ({
            let (s2, added) = jjui_merge(slots)->Ok_0;
            &&& array_elems(s2, "actions"@).len() == array_elems(slots, "actions"@).len() + (if added.added_jj_push {
                1int
            } else {
                0int
            }) + (if added.added_jj_push_selected {
                1int
            } else {
                0int
            })
            &&& array_elems(s2, "bindings"@).len() == array_elems(slots, "bindings"@).len() + (if added.added_binding_x_p {
                1int
            } else {
                0int
            }) + (if added.added_binding_x_p_caps {
                1int
            } else {
                0int
            })
        }),
{
    lemma_item_facts();
    let ak = "actions"@;
    let bk = "bindings"@;
    let a = array_elems(slots, ak);
    let s1 = if has_action(a, "jj-push"@) && has_action(a, "jj-push-selected"@) {
        slots
    } else {
        slots.insert(ak, TomlSlot::Array(merged_actions(a)))
    };
    let b = array_elems(s1, bk);
    assert(b == array_elems(slots, bk));
    let s2 = jjui_merge(slots)->Ok_0.0;
    assert(array_elems(s2, ak) == array_elems(s1, ak));
}

/// What `add_jjui_actions` returns keeps the user's configuration: where
/// its text parses, every key other than `actions` and `bindings` holds the
/// value it held, the user's actions and bindings come first and in order,
/// and each array grows by exactly the items reported added, which are
/// those that were missing.
pub proof fn lemma_add_jjui_actions_keeps_rest(existing: Seq<char>, r: Result<(String, AddedItems), JjHooksError>)
    requires
        merge_result(existing, r),
        r matches Ok((text, _)) && parsed_table(text@) is Some,
    ensures
        ({
            let e = existing_slots(existing)->0;
            let o = parsed_table(r->Ok_0.0@)->0;
            let added = r->Ok_0.1;
            &&& existing_slots(existing) is Some
            &&& forall|k: Seq<char>| k != "actions"@ && k != "bindings"@ ==> (o.contains_key(k) == e.contains_key(k)
                && (e.contains_key(k) ==> o[k] == e[k]))
            &&& array_elems(o, "actions"@).subrange(0, array_elems(e, "actions"@).len() as int) == array_elems(e, "actions"@)
            &&& array_elems(o, "bindings"@).subrange(0, array_elems(e, "bindings"@).len() as int) == array_elems(e, "bindings"@)
            &&& array_elems(o, "actions"@).len() == array_elems(e, "actions"@).len() + (if added.added_jj_push {
                1int
            } else {
                0int
            }) + (if added.added_jj_push_selected {
                1int
            } else {
                0int
            })
            &&& array_elems(o, "bindings"@).len() == array_elems(e, "bindings"@).len() + (if added.added_binding_x_p {
                1int
            } else {
                0int
            }) + (if added.added_binding_x_p_caps {
                1int
            } else {
                0int
            })
            &&& added.added_jj_push == !has_action(array_elems(e, "actions"@), "jj-push"@)
            &&& added.added_jj_push_selected == !has_action(array_elems(e, "actions"@), "jj-push-selected"@)
            &&& added.added_binding_x_p == !has_binding(array_elems(e, "bindings"@), "jj-push"@, "p"@)
            &&& added.added_binding_x_p_caps == !has_binding(array_elems(e, "bindings"@), "jj-push-selected"@, "P"@)
        }),
{
    let e = existing_slots(existing)->0;
    lemma_jjui_merge_preserves(e);
    lemma_jjui_merge_counts(e);
    lemma_item_facts();
    let a = array_elems(e, "actions"@);
    let s1 = if has_action(a, "jj-push"@) && has_action(a, "jj-push-selected"@) {
        e
    } else {
        e.insert("actions"@, TomlSlot::Array(merged_actions(a)))
    };
    assert(array_elems(s1, "bindings"@) == array_elems(e, "bindings"@));
}

/// Every item added.
pub open spec fn all_added() -> AddedItems {
    AddedItems {
        added_jj_push: true,
        added_jj_push_selected: true,
        added_binding_x_p: true,
        added_binding_x_p_caps: true,
    }
}

/// A document that holds the two actions and their two bindings, in order,
/// and nothing else.
pub open spec fn fresh_jjui_slots() -> Map<Seq<char>, TomlSlot> {
    crate::toml_doc::no_slots().insert(
        "actions"@,
        TomlSlot::Array(seq![push_action(), push_selected_action()]),
    ).insert("bindings"@, TomlSlot::Array(seq![push_binding(), push_selected_binding()]))
}

/// Merging into an empty document adds all four items: the two actions in
/// order, and their two bindings in order.
pub proof fn lemma_jjui_merge_into_empty()
    ensures
        jjui_merge(crate::toml_doc::no_slots()) == Ok::<(Map<Seq<char>, TomlSlot>, AddedItems), Seq<char>>(
            (fresh_jjui_slots(), all_added()),
        ),
{
    lemma_item_facts();
    let e = Seq::<TomlElem>::empty();
    assert(!has_action(e, "jj-push"@));
    assert(!has_action(e, "jj-push-selected"@));
    assert(!has_binding(e, "jj-push"@, "p"@));
    assert(!has_binding(e, "jj-push-selected"@, "P"@));
    assert(merged_actions(e) =~= seq![push_action(), push_selected_action()]);
    assert(merged_bindings(e) =~= seq![push_binding(), push_selected_binding()]);
    let s1 = crate::toml_doc::no_slots().insert("actions"@, TomlSlot::Array(merged_actions(e)));
    assert(array_elems(s1, "bindings"@) == e);
}

/// Merging into a blank configuration, which is what a missing file reads
/// as, succeeds, adds all four items, and gives a text that holds exactly
/// them.
pub proof fn lemma_merge_into_blank(existing: Seq<char>, r: Result<(String, AddedItems), JjHooksError>)
    requires
        trimmed(existing).len() == 0,
        merge_result(existing, r),
    ensures
        r matches Ok((text, a)) && a == all_added() && reparses(text@, fresh_jjui_slots()),
{
    lemma_jjui_merge_into_empty();
}

/// A text that `add_jjui_actions` returns, when it parses, is itself a
/// configuration that it accepts, and merging into it again adds nothing
/// and gives the same document. (A text that does not parse, which only a
/// document nested deeper than the parser's limit gives, is refused.)
pub proof fn lemma_add_jjui_actions_idempotent(existing: Seq<char>, first: Seq<char>)
    requires
        existing_slots(existing) is Some,
        jjui_merge(existing_slots(existing)->0) is Ok,
        reparses(first, jjui_merge(existing_slots(existing)->0)->Ok_0.0),
        parsed_table(first) is Some,
    ensures
        ({
            let merged = jjui_merge(existing_slots(existing)->0)->Ok_0.0;
            &&& existing_slots(first) == Some(merged)
            &&& jjui_merge(merged) == Ok::<(Map<Seq<char>, TomlSlot>, AddedItems), Seq<char>>((merged, nothing_added()))
        }),
{
    let s = existing_slots(existing)->0;
    let merged = jjui_merge(s)->Ok_0.0;
    lemma_jjui_merge_idempotent(s);
    lemma_jjui_merge_preserves(s);
    lemma_item_facts();
    let a = array_elems(s, "actions"@);
    lemma_merged_actions(a);
    let s1 = if has_action(a, "jj-push"@) && has_action(a, "jj-push-selected"@) {
        s
    } else {
        s.insert("actions"@, TomlSlot::Array(merged_actions(a)))
    };
    assert(s1.contains_key("actions"@)) by {
        if has_action(a, "jj-push"@) && has_action(a, "jj-push-selected"@) {
            assert(a.len() > 0);
        }
    }
    assert(merged.contains_key("actions"@));
}

} // verus!
