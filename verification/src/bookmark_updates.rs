//! The bookmark updates that `jj git push --dry-run` reports, and the parser
//! for its report.
//!
//! The report holds a header line per remote, `Changes to push to <remote>:`,
//! followed by one line per bookmark:
//! `Add bookmark <name> to <commit>`,
//! `Move forward|sideways|backward bookmark <name> from <commit> to <commit>`,
//! or `Delete bookmark <name> from <commit>`. Other lines are ignored.

use vstd::prelude::*;

use crate::error::JjHooksError;
use crate::text::{split, split_seq, str_eq, trim, trimmed, views, cat, to_owned_string};

verus! {

/// How a push changes a bookmark on the remote.
#[derive(Debug, Clone, Copy, PartialEq, Eq, Hash, Structural)]
pub enum UpdateType {
    Add,
    MoveForward,
    MoveSideways,
    MoveBackward,
    Delete,
}

/// One bookmark change that a push would make.
#[derive(Debug, Clone, PartialEq, Eq, Hash)]
pub struct BookmarkUpdate {
    pub remote: String,
    pub bookmark: String,
    pub update_type: UpdateType,
    /// Where the bookmark points on the remote now (none for an addition).
    pub old_commit: Option<String>,
    /// Where the push moves it (none for a deletion).
    pub new_commit: Option<String>,
}

/// The abstract value of a [`BookmarkUpdate`].
pub struct UpdateView {
    pub remote: Seq<char>,
    pub bookmark: Seq<char>,
    pub update_type: UpdateType,
    pub old_commit: Option<Seq<char>>,
    pub new_commit: Option<Seq<char>>,
}

/// The characters of an optional string.
pub open spec fn opt_view(o: Option<String>) -> Option<Seq<char>> {
    match o {
        Some(s) => Some(s@),
        None => None,
    }
}

impl View for BookmarkUpdate {
    type V = UpdateView;

    open spec fn view(&self) -> UpdateView {
        UpdateView {
            remote: self.remote@,
            bookmark: self.bookmark@,
            update_type: self.update_type,
            old_commit: opt_view(self.old_commit),
            new_commit: opt_view(self.new_commit),
        }
    }
}

/// A copy of an optional string.
pub fn copy_opt(o: &Option<String>) -> (r: Option<String>)
    ensures
        opt_view(r) == opt_view(*o),
{
    match o {
        Some(s) => Some(s.clone()),
        None => None,
    }
}

/// Whether two optional strings hold the same characters.
pub fn opt_eq(a: &Option<String>, b: &Option<String>) -> (r: bool)
    ensures
        r == (opt_view(*a) == opt_view(*b)),
{
    match (a, b) {
        (Some(x), Some(y)) => str_eq(x.as_str(), y.as_str()),
        (None, None) => true,
        _ => false,
    }
}

impl BookmarkUpdate {
    /// A copy with the same abstract value.
    pub fn duplicate(&self) -> (r: BookmarkUpdate)
        ensures
            r@ == self@,
    {
        BookmarkUpdate {
            remote: self.remote.clone(),
            bookmark: self.bookmark.clone(),
            update_type: self.update_type,
            old_commit: copy_opt(&self.old_commit),
            new_commit: copy_opt(&self.new_commit),
        }
    }

    /// Whether two updates have the same abstract value.
    pub fn same_as(&self, other: &BookmarkUpdate) -> (r: bool)
        ensures
            r == (self@ == other@),
    {
        str_eq(self.remote.as_str(), other.remote.as_str()) && str_eq(
            self.bookmark.as_str(),
            other.bookmark.as_str(),
        ) && self.update_type == other.update_type && opt_eq(&self.old_commit, &other.old_commit)
            && opt_eq(&self.new_commit, &other.new_commit)
    }
}

/// The views of a sequence of updates.
pub open spec fn update_views(v: Seq<BookmarkUpdate>) -> Seq<UpdateView> {
    v.map_values(|u: BookmarkUpdate| u@)
}

proof fn lemma_error_persists(ls: Seq<Seq<char>>, i: int, e: Seq<char>)
    requires
        0 <= i <= ls.len(),
        parse_lines(ls.subrange(0, i)) == Err::<(Option<Seq<char>>, Seq<UpdateView>), Seq<char>>(e),
    ensures
        parse_lines(ls) == Err::<(Option<Seq<char>>, Seq<UpdateView>), Seq<char>>(e),
    decreases ls.len() - i,
{
    if i == ls.len() {
        assert(ls.subrange(0, i) =~= ls);
    } else {
        let sub = ls.subrange(0, i + 1);
        assert(sub.drop_last() =~= ls.subrange(0, i));
        lemma_error_persists(ls, i + 1, e);
    }
}

/// What one line of the report says.
pub enum LineKind {
    /// `Changes to push to <remote>:`
    Header(Seq<char>),
    /// A bookmark change: kind, bookmark, old and new commit.
    Change(UpdateType, Seq<char>, Option<Seq<char>>, Option<Seq<char>>),
    /// A line that begins like a bookmark change but has another shape.
    Malformed,
    /// Anything else.
    Other,
}

/// Whether the words of a line are those of a remote header.
pub open spec fn is_header(t: Seq<Seq<char>>) -> bool {
    &&& t.len() == 5
    &&& t[0] == "Changes"@
    &&& t[1] == "to"@
    &&& t[2] == "push"@
    &&& t[3] == "to"@
    &&& t[4].len() > 1
    &&& t[4].last() == ':'
}

/// Whether the words of a line begin like a bookmark change.
pub open spec fn is_change_line(t: Seq<Seq<char>>) -> bool {
    ||| (t.len() >= 2 && (t[0] == "Add"@ || t[0] == "Delete"@) && t[1] == "bookmark"@)
    ||| (t.len() >= 3 && t[0] == "Move"@ && t[2] == "bookmark"@)
}

/// The kind of move that a `Move <direction>` line names.
pub open spec fn move_kind(w: Seq<char>) -> Option<UpdateType> {
    if w == "forward"@ {
        Some(UpdateType::MoveForward)
    } else if w == "sideways"@ {
        Some(UpdateType::MoveSideways)
    } else if w == "backward"@ {
        Some(UpdateType::MoveBackward)
    } else {
        None
    }
}

/// What a line says, from its words (the trimmed line split on single
/// spaces).
pub open spec fn classify(t: Seq<Seq<char>>) -> LineKind {
    if is_header(t) {
        LineKind::Header(t[4].drop_last())
    } else if !is_change_line(t) {
        LineKind::Other
    } else if t[0] == "Add"@ && t.len() == 5 && t[3] == "to"@ {
        LineKind::Change(UpdateType::Add, t[2], None, Some(t[4]))
    } else if t[0] == "Delete"@ && t.len() == 5 && t[3] == "from"@ {
        LineKind::Change(UpdateType::Delete, t[2], Some(t[4]), None)
    } else if t[0] == "Move"@ && t.len() == 8 && move_kind(t[1]) is Some && t[4] == "from"@ && t[6]
        == "to"@ {
        LineKind::Change(move_kind(t[1])->0, t[3], Some(t[5]), Some(t[7]))
    } else {
        LineKind::Malformed
    }
}

/// What a line says.
pub open spec fn line_kind(line: Seq<char>) -> LineKind {
    classify(split_seq(trimmed(line), ' '))
}

/// The error text for a change line that has an unknown shape.
pub open spec fn malformed_message(line: Seq<char>) -> Seq<char> {
    "unrecognized bookmark update line: "@ + trimmed(line)
}

/// The error text for a change line that comes before any remote header.
pub open spec fn orphan_message(line: Seq<char>) -> Seq<char> {
    "bookmark update outside a remote section: "@ + trimmed(line)
}

/// The parse so far: the current remote and the distinct updates in the
/// order of their first appearance, or an error text.
pub open spec fn parse_step(
    acc: Result<(Option<Seq<char>>, Seq<UpdateView>), Seq<char>>,
    line: Seq<char>,
) -> Result<(Option<Seq<char>>, Seq<UpdateView>), Seq<char>> {
    match acc {
        Err(e) => Err(e),
        Ok((rem, ups)) => match line_kind(line) {
            LineKind::Header(r) => Ok((Some(r), ups)),
            LineKind::Change(k, b, o, n) => match rem {
                None => Err(orphan_message(line)),
                Some(r) => {
                    let u = UpdateView {
                        remote: r,
                        bookmark: b,
                        update_type: k,
                        old_commit: o,
                        new_commit: n,
                    };
                    if ups.contains(u) {
                        Ok((rem, ups))
                    } else {
                        Ok((rem, ups.push(u)))
                    }
                },
            },
            LineKind::Malformed => Err(malformed_message(line)),
            LineKind::Other => Ok((rem, ups)),
        },
    }
}

/// The parse of a sequence of lines.
pub open spec fn parse_lines(lines: Seq<Seq<char>>) -> Result<
    (Option<Seq<char>>, Seq<UpdateView>),
    Seq<char>,
>
    decreases lines.len(),
{
    if lines.len() == 0 {
        Ok((None, Seq::empty()))
    } else {
        parse_step(parse_lines(lines.drop_last()), lines.last())
    }
}

/// The updates that a dry-run report lists, or the error text for it.
pub open spec fn dry_run_spec(text: Seq<char>) -> Result<Seq<UpdateView>, Seq<char>> {
    let p = parse_lines(split_seq(text, '\n'));
    match p {
        Ok(st) => Ok(st.1),
        Err(e) => Err(e),
    }
}

/// What a line says, in executable form.
enum Line {
    Header(String),
    Change(UpdateType, String, Option<String>, Option<String>),
    Malformed,
    Other,
}

spec fn line_view(l: Line) -> LineKind {
    match l {
        Line::Header(r) => LineKind::Header(r@),
        Line::Change(k, b, o, n) => LineKind::Change(k, b@, opt_view(o), opt_view(n)),
        Line::Malformed => LineKind::Malformed,
        Line::Other => LineKind::Other,
    }
}

/// Whether word `i` of `t` is `lit`.
fn word_is(t: &Vec<String>, i: usize, lit: &str) -> (r: bool)
    requires
        i < t.len(),
    ensures
        r == (views(t@)[i as int] == lit@),
{
    str_eq(t[i].as_str(), lit)
}

fn classify_words(t: &Vec<String>) -> (r: Line)
    ensures
        line_view(r) == classify(views(t@)),
{
    let ghost w = views(t@);
    let n = t.len();
    if n == 5 && word_is(t, 0, "Changes") && word_is(t, 1, "to") && word_is(t, 2, "push")
        && word_is(t, 3, "to") {
        let last = t[4].as_str();
        let m = last.unicode_len();
        if m > 1 && last.get_char(m - 1) == ':' {
            assert(is_header(w));
            let r = to_owned_string(last.substring_char(0, m - 1));
            assert(r@ =~= w[4].drop_last());
            return Line::Header(r);
        }
    }
    assert(!is_header(w));
    let is_add = n >= 2 && word_is(t, 0, "Add");
    let is_delete = n >= 2 && word_is(t, 0, "Delete");
    let is_move = n >= 3 && word_is(t, 0, "Move");
    let change = ((is_add || is_delete) && word_is(t, 1, "bookmark")) || (is_move && word_is(
        t,
        2,
        "bookmark",
    ));
    if !change {
        return Line::Other;
    }
    assert(is_change_line(w));
    if is_add && n == 5 && word_is(t, 3, "to") {
        return Line::Change(UpdateType::Add, t[2].clone(), None, Some(t[4].clone()));
    }
    if is_delete && n == 5 && word_is(t, 3, "from") {
        return Line::Change(UpdateType::Delete, t[2].clone(), Some(t[4].clone()), None);
    }
    if is_move && n == 8 && word_is(t, 4, "from") && word_is(t, 6, "to") {
        let kind = if word_is(t, 1, "forward") {
            Some(UpdateType::MoveForward)
        } else if word_is(t, 1, "sideways") {
            Some(UpdateType::MoveSideways)
        } else if word_is(t, 1, "backward") {
            Some(UpdateType::MoveBackward)
        } else {
            None
        };
        assert(kind == move_kind(w[1]));
        if let Some(k) = kind {
            return Line::Change(k, t[3].clone(), Some(t[5].clone()), Some(t[7].clone()));
        }
    }
    Line::Malformed
}

/// Whether `u` has the same abstract value as one of `v`.
fn contains_update(v: &Vec<BookmarkUpdate>, u: &BookmarkUpdate) -> (r: bool)
    ensures
        r == update_views(v@).contains(u@),
{
    let mut i: usize = 0;
    while i < v.len()
        invariant
            i <= v.len(),
            forall|k: int| 0 <= k < i ==> v@[k]@ != u@,
        decreases v.len() - i,
    {
        if v[i].same_as(u) {
            assert(update_views(v@)[i as int] == u@);
            return true;
        }
        i = i + 1;
    }
    assert forall|k: int| 0 <= k < update_views(v@).len() implies update_views(v@)[k] != u@ by {
        assert(update_views(v@)[k] == v@[k]@);
    }
    false
}

/// Parses the report of `jj git push --dry-run` into the distinct bookmark
/// updates it lists, in the order of their first appearance. A change line
/// of unknown shape, or one before any remote header, is an error.
pub fn parse_git_push_dry_run(output: &str) -> (r: Result<Vec<BookmarkUpdate>, JjHooksError>)
    ensures
        match dry_run_spec(output@) {
            Ok(ups) => r matches Ok(v) && update_views(v@) == ups,
            Err(e) => r matches Err(JjHooksError::Parse(m)) && m@ == e,
        },
{
    let lines = split(output, '\n');
    let ghost ls = split_seq(output@, '\n');
    let mut remote: Option<String> = None;
    let mut out: Vec<BookmarkUpdate> = Vec::new();
    let mut i: usize = 0;
    assert(ls.subrange(0, 0) =~= Seq::<Seq<char>>::empty());
    assert(update_views(out@) =~= Seq::<UpdateView>::empty());
    while i < lines.len()
        invariant
            views(lines@) == ls,
            ls == split_seq(output@, '\n'),
            i <= lines.len(),
            parse_lines(ls.subrange(0, i as int)) == Ok::<
                (Option<Seq<char>>, Seq<UpdateView>),
                Seq<char>,
            >((opt_view(remote), update_views(out@))),
        decreases lines.len() - i,
    {
        let ghost sub = ls.subrange(0, i + 1);
        proof {
            assert(sub.drop_last() =~= ls.subrange(0, i as int));
            assert(sub.last() == lines@[i as int]@);
        }
        let line = trim(lines[i].as_str());
        let words = split(line.as_str(), ' ');
        let kind = classify_words(&words);
        assert(line_kind(sub.last()) == line_view(kind));
        assert(parse_lines(sub) == parse_step(
            Ok::<(Option<Seq<char>>, Seq<UpdateView>), Seq<char>>((opt_view(remote), update_views(out@))),
            sub.last(),
        ));
        match kind {
            Line::Header(r) => {
                remote = Some(r);
            },
            Line::Change(k, b, o, n) => {
                match &remote {
                    None => {
                        let m = cat("bookmark update outside a remote section: ", line.as_str());
                        proof {
                            lemma_error_persists(ls, i + 1, m@);
                        }
                        return Err(JjHooksError::Parse(m));
                    },
                    Some(rem) => {
                        let u = BookmarkUpdate {
                            remote: rem.clone(),
                            bookmark: b,
                            update_type: k,
                            old_commit: o,
                            new_commit: n,
                        };
                        if !contains_update(&out, &u) {
                            let ghost prev = out@;
                            out.push(u);
                            assert(update_views(out@) =~= update_views(prev).push(u@));
                        }
                    },
                }
            },
            Line::Malformed => {
                let m = cat("unrecognized bookmark update line: ", line.as_str());
                proof {
                    lemma_error_persists(ls, i + 1, m@);
                }
                return Err(JjHooksError::Parse(m));
            },
            Line::Other => {},
        }
        i = i + 1;
    }
    assert(ls.subrange(0, lines.len() as int) =~= ls);
    Ok(out)
}

proof fn lemma_parse_distinct(lines: Seq<Seq<char>>)
    ensures
        parse_lines(lines) matches Ok(st) ==> st.1.no_duplicates(),
    decreases lines.len(),
{
    if lines.len() > 0 {
        lemma_parse_distinct(lines.drop_last());
        let prev = parse_lines(lines.drop_last());
        if let Ok(st) = prev {
            let ups = st.1;
            match line_kind(lines.last()) {
                LineKind::Change(k, b, o, n) => {
                    if let Some(r) = st.0 {
                        let u = UpdateView { remote: r, bookmark: b, update_type: k, old_commit: o, new_commit: n };
                        if !ups.contains(u) {
                            let p = ups.push(u);
                            assert forall|i: int, j: int| 0 <= i < p.len() && 0 <= j < p.len() && i != j implies p[i] != p[j] by {
                                if i == ups.len() {
                                    assert(p[j] == ups[j]);
                                } else if j == ups.len() {
                                    assert(p[i] == ups[i]);
                                } else {
                                    assert(p[i] == ups[i] && p[j] == ups[j]);
                                }
                            }
                        }
                    }
                },
                _ => {},
            }
        }
    }
}

/// The updates that a dry-run report yields are distinct: a change listed
/// twice counts once.
pub proof fn lemma_dry_run_distinct(text: Seq<char>)
    ensures
        dry_run_spec(text) matches Ok(ups) ==> ups.no_duplicates(),
{
    lemma_parse_distinct(split_seq(text, '\n'));
}

/// A `Move <direction> bookmark B from X to Y` line names bookmark `B`
/// moving from the remote's commit `X` to the pushed commit `Y`, for each
/// of the three directions.
pub proof fn lemma_move_line(dir: Seq<char>, b: Seq<char>, x: Seq<char>, y: Seq<char>)
    requires
        dir == "forward"@ || dir == "sideways"@ || dir == "backward"@,
    ensures
        classify(seq!["Move"@, dir, "bookmark"@, b, "from"@, x, "to"@, y]) == LineKind::Change(
            if dir == "forward"@ {
                UpdateType::MoveForward
            } else if dir == "sideways"@ {
                UpdateType::MoveSideways
            } else {
                UpdateType::MoveBackward
            },
            b,
            Some(x),
            Some(y),
        ),
{
    reveal_strlit("Move");
    reveal_strlit("Changes");
    reveal_strlit("forward");
    reveal_strlit("sideways");
    reveal_strlit("backward");
    reveal_strlit("Add");
    let t = seq!["Move"@, dir, "bookmark"@, b, "from"@, x, "to"@, y];
    assert("Move"@.len() != "Changes"@.len());
    assert("Move"@.len() != "Add"@.len());
    assert(t[0] != "Changes"@);
    assert(t[0] != "Add"@);
    assert("forward"@.len() != "sideways"@.len());
    assert("forward"@.len() != "backward"@.len());
    assert("sideways"@[0] != "backward"@[0]);
}

/// `Add bookmark B to Y` names a new bookmark `B` at the pushed commit `Y`,
/// and `Delete bookmark B from X` the removal of `B` from the remote's
/// commit `X`.
pub proof fn lemma_add_delete_lines(b: Seq<char>, x: Seq<char>)
    ensures
        classify(seq!["Add"@, "bookmark"@, b, "to"@, x]) == LineKind::Change(UpdateType::Add, b, None, Some(x)),
        classify(seq!["Delete"@, "bookmark"@, b, "from"@, x]) == LineKind::Change(UpdateType::Delete, b, Some(x), None),
{
    reveal_strlit("Add");
    reveal_strlit("Delete");
    reveal_strlit("Changes");
    reveal_strlit("Move");
    assert("Add"@.len() != "Changes"@.len());
    assert("Delete"@.len() != "Changes"@.len());
    assert("Delete"@.len() != "Add"@.len());
    assert("Delete"@.len() != "Move"@.len());
}

/// A change line under a remote header is recorded with that remote and
/// exactly the bookmark, kind and commits that the line names.
pub proof fn lemma_change_recorded(remote: Seq<char>, ups: Seq<UpdateView>, line: Seq<char>)
    requires
        line_kind(line) is Change,
    ensures
        ({
            let (k, b, o, n) = (line_kind(line)->Change_0, line_kind(line)->Change_1, line_kind(line)->Change_2, line_kind(line)->Change_3);
            parse_step(Ok((Some(remote), ups)), line) matches Ok((Some(rem), after)) && rem == remote
                && after.contains(UpdateView { remote, bookmark: b, update_type: k, old_commit: o, new_commit: n })
                && after.subrange(0, ups.len() as int) == ups
        }),
{
    let (k, b, o, n) = (line_kind(line)->Change_0, line_kind(line)->Change_1, line_kind(line)->Change_2, line_kind(line)->Change_3);
    let u = UpdateView { remote, bookmark: b, update_type: k, old_commit: o, new_commit: n };
    if !ups.contains(u) {
        assert(ups.push(u)[ups.len() as int] == u);
        assert(ups.push(u).subrange(0, ups.len() as int) =~= ups);
    } else {
        assert(ups.subrange(0, ups.len() as int) =~= ups);
    }
}

} // verus!
