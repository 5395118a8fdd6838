//! Hook runner backends.
//!
//! Each runner has slightly different command-line ergonomics, so this module
//! owns the per-backend knowledge of which arguments it accepts. pre-commit
//! and prek share a command line; hk has its own; lefthook takes a file list
//! rather than ref bounds.

use vstd::prelude::*;

use crate::error::JjHooksError;
use crate::text::{str_eq, to_owned_string, views};

verus! {

/// A hook-runner backend.
#[derive(Debug, Clone, Copy, PartialEq, Eq, Structural)]
pub enum Runner {
    PreCommit,
    Prek,
    Lefthook,
    Hk,
}

/// The hook stage to run.
#[derive(Debug, Clone, Copy, PartialEq, Eq, Structural)]
pub enum Stage {
    PreCommit,
    PrePush,
}

/// The executable name of a runner.
pub open spec fn runner_bin(r: Runner) -> Seq<char> {
    match r {
        Runner::PreCommit => "pre-commit"@,
        Runner::Prek => "prek"@,
        Runner::Lefthook => "lefthook"@,
        Runner::Hk => "hk"@,
    }
}

/// The name a runner uses for a stage.
pub open spec fn stage_name(s: Stage) -> Seq<char> {
    match s {
        Stage::PreCommit => "pre-commit"@,
        Stage::PrePush => "pre-push"@,
    }
}

/// The configuration files whose presence at a root selects a runner. prek
/// shares pre-commit's file and is never selected by detection.
pub open spec fn config_files(r: Runner) -> Seq<Seq<char>> {
    match r {
        Runner::Hk => seq!["hk.pkl"@],
        Runner::Lefthook => seq![
            "lefthook.yml"@,
            "lefthook.yaml"@,
            ".lefthook.yml"@,
            ".lefthook.yaml"@,
        ],
        Runner::PreCommit => seq![".pre-commit-config.yaml"@, ".pre-commit-config.yml"@],
        Runner::Prek => Seq::empty(),
    }
}

/// Whether one of the configuration files of `r` is among `present`.
pub open spec fn has_config(present: Seq<Seq<char>>, r: Runner) -> bool {
    exists|i: int| 0 <= i < config_files(r).len() && present.contains(#[trigger] config_files(r)[i])
}

/// `seq![r]` where `r` has a configuration file in `present`, else empty.
pub open spec fn found_if(present: Seq<Seq<char>>, r: Runner) -> Seq<Runner> {
    if has_config(present, r) {
        seq![r]
    } else {
        Seq::empty()
    }
}

/// The runners whose configuration is present, in probing order: lefthook,
/// then pre-commit, then hk.
pub open spec fn detected(present: Seq<Seq<char>>) -> Seq<Runner> {
    found_if(present, Runner::Lefthook) + found_if(present, Runner::PreCommit) + found_if(
        present,
        Runner::Hk,
    )
}

/// The runner names, each in double quotes, separated by `, `.
pub open spec fn quoted_bins(rs: Seq<Runner>) -> Seq<char>
    decreases rs.len(),
{
    if rs.len() == 0 {
        Seq::empty()
    } else if rs.len() == 1 {
        "\""@ + runner_bin(rs[0]) + "\""@
    } else {
        quoted_bins(rs.drop_last()) + ", \""@ + runner_bin(rs.last()) + "\""@
    }
}

/// The error text when more than one runner configuration is present.
pub open spec fn ambiguity_message(rs: Seq<Runner>) -> Seq<char> {
    "multiple hook-runner configs found at workspace root: ["@ + quoted_bins(rs)
        + "]. Use --runner to pick one."@
}

/// What detection decides for the set of present files: no runner, exactly
/// one, or an error naming all of them.
pub open spec fn autodetect_result(present: Seq<Seq<char>>, r: Result<Option<Runner>, JjHooksError>) -> bool {
    let d = detected(present);
    if d.len() == 0 {
        r == Ok::<Option<Runner>, JjHooksError>(None)
    } else if d.len() == 1 {
        r == Ok::<Option<Runner>, JjHooksError>(Some(d[0]))
    } else {
        r matches Err(JjHooksError::Parse(m)) && m@ == ambiguity_message(d)
    }
}

/// The command line for a pre-commit, prek or hk invocation.
pub open spec fn hook_argv(runner: Runner, stage: Stage, from: Seq<char>, to: Seq<char>) -> Seq<Seq<char>> {
    match runner {
        Runner::Hk => seq![runner_bin(runner), "run"@, stage_name(stage)],
        _ => seq![
            runner_bin(runner),
            "run"@,
            "--hook-stage"@,
            stage_name(stage),
            "--from-ref"@,
            from,
            "--to-ref"@,
            to,
        ],
    }
}

/// `--file <f>` for each file, in order.
pub open spec fn file_flags(files: Seq<Seq<char>>) -> Seq<Seq<char>>
    decreases files.len(),
{
    if files.len() == 0 {
        Seq::empty()
    } else {
        file_flags(files.drop_last()) + seq!["--file"@, files.last()]
    }
}

/// The command line for a lefthook invocation over a file list.
pub open spec fn lefthook_argv(stage: Stage, files: Seq<Seq<char>>) -> Seq<Seq<char>> {
    seq!["lefthook"@, "run"@, stage_name(stage)] + file_flags(files)
}

impl Runner {
    /// The executable name of the runner.
    pub fn bin(self) -> (r: &'static str)
        ensures
            r@ == runner_bin(self),
    {
        match self {
            Runner::PreCommit => "pre-commit",
            Runner::Prek => "prek",
            Runner::Lefthook => "lefthook",
            Runner::Hk => "hk",
        }
    }

    /// Every file name whose presence detection looks for, in probing order.
    pub fn candidate_files() -> (r: Vec<&'static str>)
        ensures
            r@.map_values(|s: &str| s@) == config_files(Runner::Lefthook) + config_files(
                Runner::PreCommit,
            ) + config_files(Runner::Hk),
    {
        let r = vec![
            "lefthook.yml",
            "lefthook.yaml",
            ".lefthook.yml",
            ".lefthook.yaml",
            ".pre-commit-config.yaml",
            ".pre-commit-config.yml",
            "hk.pkl",
        ];
        assert(r@.map_values(|s: &str| s@) =~= config_files(Runner::Lefthook) + config_files(
            Runner::PreCommit,
        ) + config_files(Runner::Hk));
        r
    }

    /// The configuration files of one runner.
    fn config_file_names(self) -> (r: Vec<&'static str>)
        ensures
            r@.map_values(|s: &str| s@) == config_files(self),
    {
        let r = match self {
            Runner::Hk => vec!["hk.pkl"],
            Runner::Lefthook => vec![
                "lefthook.yml",
                "lefthook.yaml",
                ".lefthook.yml",
                ".lefthook.yaml",
            ],
            Runner::PreCommit => vec![".pre-commit-config.yaml", ".pre-commit-config.yml"],
            Runner::Prek => Vec::new(),
        };
        assert(r@.map_values(|s: &str| s@) =~= config_files(self));
        r
    }

    /// Whether some configuration file of the runner is among `present`.
    fn configured_in(self, present: &Vec<String>) -> (r: bool)
        ensures
            r == has_config(views(present@), self),
    {
        let names = self.config_file_names();
        let ghost files = config_files(self);
        let mut i: usize = 0;
        while i < names.len()
            invariant
                names@.map_values(|s: &str| s@) == files,
                files == config_files(self),
                i <= names.len(),
                forall|k: int| 0 <= k < i ==> !views(present@).contains(#[trigger] files[k]),
            decreases names.len() - i,
        {
            assert(names@.map_values(|s: &str| s@)[i as int] == names@[i as int]@);
            if contains_str(present, names[i]) {
                assert(views(present@).contains(files[i as int]));
                return true;
            }
            i = i + 1;
        }
        false
    }

    /// Picks the runner from the names of the files present at a root.
    /// Returns no runner when none is configured, and an error naming every
    /// configured runner when more than one is.
    pub fn autodetect(present: &Vec<String>) -> (r: Result<Option<Runner>, JjHooksError>)
        ensures
            autodetect_result(views(present@), r),
    {
        let ghost p = views(present@);
        let mut found: Vec<Runner> = Vec::new();
        if Runner::Lefthook.configured_in(present) {
            found.push(Runner::Lefthook);
        }
        assert(found@ =~= found_if(p, Runner::Lefthook));
        if Runner::PreCommit.configured_in(present) {
            found.push(Runner::PreCommit);
        }
        assert(found@ =~= found_if(p, Runner::Lefthook) + found_if(p, Runner::PreCommit));
        if Runner::Hk.configured_in(present) {
            found.push(Runner::Hk);
        }
        assert(found@ =~= detected(p));
        if found.len() == 0 {
            Ok(None)
        } else if found.len() == 1 {
            Ok(Some(found[0]))
        } else {
            Err(JjHooksError::Parse(ambiguity_text(&found)))
        }
    }
}

/// Whether `x` is one of the strings of `v`.
pub fn contains_str(v: &Vec<String>, x: &str) -> (r: bool)
    ensures
        r == views(v@).contains(x@),
{
    let mut i: usize = 0;
    while i < v.len()
        invariant
            i <= v.len(),
            forall|k: int| 0 <= k < i ==> v@[k]@ != x@,
        decreases v.len() - i,
    {
        if str_eq(v[i].as_str(), x) {
            assert(views(v@)[i as int] == x@);
            return true;
        }
        i = i + 1;
    }
    assert forall|k: int| 0 <= k < views(v@).len() implies views(v@)[k] != x@ by {
        assert(views(v@)[k] == v@[k]@);
    }
    false
}

/// The error text for several configured runners.
fn ambiguity_text(found: &Vec<Runner>) -> (r: String)
    requires
        found.len() >= 1,
    ensures
        r@ == ambiguity_message(found@),
{
    let mut list = String::new();
    list.append("\"");
    list.append(found[0].bin());
    list.append("\"");
    assert(found@.subrange(0, 1).drop_last() =~= Seq::<Runner>::empty());
    assert(list@ == quoted_bins(found@.subrange(0, 1)));
    let mut i: usize = 1;
    while i < found.len()
        invariant
            1 <= i <= found.len(),
            list@ == quoted_bins(found@.subrange(0, i as int)),
        decreases found.len() - i,
    {
        list.append(", \"");
        list.append(found[i].bin());
        list.append("\"");
        assert(found@.subrange(0, i + 1).drop_last() =~= found@.subrange(0, i as int));
        i = i + 1;
    }
    assert(found@.subrange(0, found.len() as int) =~= found@);
    let mut r = String::from_str("multiple hook-runner configs found at workspace root: [");
    r.append(list.as_str());
    r.append("]. Use --runner to pick one.");
    r
}

impl Stage {
    /// The name the runners use for the stage.
    pub fn as_str(self) -> (r: &'static str)
        ensures
            r@ == stage_name(self),
    {
        match self {
            Stage::PreCommit => "pre-commit",
            Stage::PrePush => "pre-push",
        }
    }
}

/// Builds the command line for a hook invocation against the `from..to`
/// range: pre-commit and prek take
/// `<bin> run --hook-stage <stage> --from-ref <from> --to-ref <to>`; hk takes
/// `hk run <stage>`. lefthook takes a file list instead
/// (see [`lefthook_command`]), so it is not accepted here.
pub fn hook_command(runner: Runner, stage: Stage, from: &str, to: &str) -> (r: Vec<String>)
    requires
        runner != Runner::Lefthook,
    ensures
        views(r@) == hook_argv(runner, stage, from@, to@),
{
    let r = match runner {
        Runner::Hk => vec![
            to_owned_string(runner.bin()),
            to_owned_string("run"),
            to_owned_string(stage.as_str()),
        ],
        _ => vec![
            to_owned_string(runner.bin()),
            to_owned_string("run"),
            to_owned_string("--hook-stage"),
            to_owned_string(stage.as_str()),
            to_owned_string("--from-ref"),
            to_owned_string(from),
            to_owned_string("--to-ref"),
            to_owned_string(to),
        ],
    };
    assert(views(r@) =~= hook_argv(runner, stage, from@, to@));
    r
}

/// Builds the command line for a lefthook invocation: one `--file <path>`
/// pair per changed file, none when the list is empty.
pub fn lefthook_command(stage: Stage, files: &Vec<String>) -> (r: Vec<String>)
    ensures
        views(r@) == lefthook_argv(stage, views(files@)),
{
    let mut argv = vec![
        to_owned_string("lefthook"),
        to_owned_string("run"),
        to_owned_string(stage.as_str()),
    ];
    let mut i: usize = 0;
    assert(views(files@).subrange(0, 0) =~= Seq::<Seq<char>>::empty());
    assert(views(argv@) =~= lefthook_argv(stage, views(files@).subrange(0, 0)));
    while i < files.len()
        invariant
            i <= files.len(),
            views(argv@) == lefthook_argv(stage, views(files@).subrange(0, i as int)),
        decreases files.len() - i,
    {
        let ghost prev = argv@;
        argv.push(to_owned_string("--file"));
        argv.push(files[i].clone());
        proof {
            assert(views(argv@) =~= views(prev) + seq!["--file"@, files@[i as int]@]);
            let fs = views(files@).subrange(0, i + 1);
            assert(fs.drop_last() =~= views(files@).subrange(0, i as int));
            assert(fs.last() == files@[i as int]@);
            assert(file_flags(fs) == file_flags(fs.drop_last()) + seq!["--file"@, fs.last()]);
            assert(views(argv@) =~= seq!["lefthook"@, "run"@, stage_name(stage)] + file_flags(fs));
        }
        i = i + 1;
    }
    assert(views(files@).subrange(0, files.len() as int) =~= views(files@));
    argv
}

/// Detection never picks prek: it shares pre-commit's configuration file
/// and has to be asked for by name.
pub proof fn lemma_prek_never_detected(present: Seq<Seq<char>>)
    ensures
        !detected(present).contains(Runner::Prek),
{
    let d = detected(present);
    assert forall|i: int| 0 <= i < d.len() implies d[i] != Runner::Prek by {
        let a = found_if(present, Runner::Lefthook);
        let b = found_if(present, Runner::PreCommit);
        let c = found_if(present, Runner::Hk);
        assert(d == a + b + c);
        if i < a.len() {
            assert(d[i] == a[i]);
        } else if i < a.len() + b.len() {
            assert(d[i] == (a + b)[i]);
        } else {
            assert(d[i] == c[i - a.len() - b.len()]);
        }
    }
}

/// Detection finds every configured runner exactly once, so it fails
/// exactly when configurations of two runners are present.
pub proof fn lemma_detected_runners(present: Seq<Seq<char>>)
    ensures
        detected(present).no_duplicates(),
        forall|r: Runner| r != Runner::Prek ==> (detected(present).contains(r) <==> has_config(present, r)),
{
    let d = detected(present);
    let a = found_if(present, Runner::Lefthook);
    let b = found_if(present, Runner::PreCommit);
    let c = found_if(present, Runner::Hk);
    assert(d =~= a + b + c);
    assert forall|r: Runner| r != Runner::Prek implies (d.contains(r) <==> has_config(present, r)) by {
        if has_config(present, r) {
            if r == Runner::Lefthook {
                assert(d[0] == r);
            } else if r == Runner::PreCommit {
                assert(d[a.len() as int] == r);
            } else {
                assert(d[(a.len() + b.len()) as int] == r);
            }
        }
        if d.contains(r) {
            let i = choose|i: int| 0 <= i < d.len() && d[i] == r;
            if i < a.len() {
                assert(d[i] == a[i]);
            } else if i < a.len() + b.len() {
                assert(d[i] == b[i - a.len()]);
            } else {
                assert(d[i] == c[i - a.len() - b.len()]);
            }
        }
    }
    assert forall|i: int, j: int| 0 <= i < d.len() && 0 <= j < d.len() && i != j implies d[i] != d[j] by {
        let ki = if i < a.len() { 0int } else if i < a.len() + b.len() { 1int } else { 2int };
        let kj = if j < a.len() { 0int } else if j < a.len() + b.len() { 1int } else { 2int };
        if i < a.len() { assert(d[i] == a[i]); } else if i < a.len() + b.len() { assert(d[i] == b[i - a.len()]); } else { assert(d[i] == c[i - a.len() - b.len()]); }
        if j < a.len() { assert(d[j] == a[j]); } else if j < a.len() + b.len() { assert(d[j] == b[j - a.len()]); } else { assert(d[j] == c[j - a.len() - b.len()]); }
    }
}

} // verus!
