//! GitHub issue sync: reading a remote URL, and the pure decision of what a
//! sync pass does for one linked todo.
use vstd::prelude::*;
use crate::comments::{Comment, CommentV, made_comment, same_but_comments};
use crate::order::{text_lt, chars_lt, keep, lemma_keep_step, lemma_keep_all, views};
use crate::text::{
    dup, to_chars, from_chars, trim, trim_chars, find_seq, find_chars, lemma_find_from, starts_with,
    starts_with_chars, ends_with, ends_with_chars, slice_chars, trim_start_by, trim_end_by,
    trim_start_char, trim_end_char, split_on, split_chars, lemma_split_nonempty, concat_chars,
    find_from, occurs_at, skip_chars,
    is_text, cat,
};
use crate::num::{dec_digits, fmt_u64, is_digit, parse_int, parse_i64};
use crate::todos::{GithubLink, LinkV, Todo, TodoV};

verus! {

// ------------------------------------------------------------ remote URLs
pub open spec fn is_slash(c: char) -> bool {
    c == '/'
}

/// The path part of a remote URL: what follows the ':' of scp-style
/// `git@host:path`, or the first '/' after the scheme's "://".
pub open spec fn remote_path(u: Seq<char>) -> Option<Seq<char>> {
    let t = trim(u);
    if starts_with(t, "git@"@) {
        let rest = t.skip(4);
        match find_seq(rest, seq![':']) {
            Some(i) => Some(rest.skip(i + 1)),
            None => None,
        }
    } else {
        match find_seq(t, "://"@) {
            Some(i) => {
                let rest = t.skip(i + 3);
                match find_seq(rest, seq!['/']) {
                    Some(j) => Some(rest.skip(j + 1)),
                    None => None,
                }
            },
            None => None,
        }
    }
}

/// "owner/name" from the first two '/'-separated segments of a path with
/// any ".git" suffix and surrounding slashes removed; both must be
/// non-empty.
pub open spec fn repo_from_path(p: Seq<char>) -> Option<Seq<char>> {
    let p2 = if ends_with(p, ".git"@) { p.take(p.len() - 4) } else { p };
    let p3 = trim_end_by(trim_start_by(p2, |c: char| c == '/'), |c: char| c == '/');
    let segs = split_on(p3, '/');
    if segs[0].len() > 0 && segs.len() >= 2 && segs[1].len() > 0 {
        Some(segs[0] + seq!['/'] + segs[1])
    } else {
        None
    }
}

/// "owner/name" for a git remote URL in scp-style (`git@host:o/n.git`), ssh
/// (`ssh://git@host/o/n.git`) or https (`https://host/o/n[.git]`) form.
pub open spec fn repo_of(u: Seq<char>) -> Option<Seq<char>> {
    match remote_path(u) {
        Some(p) => repo_from_path(p),
        None => None,
    }
}

fn remote_path_exec(u: &str) -> (r: Option<Vec<char>>)
    ensures
        r matches Some(p) ==> remote_path(u@) == Some(p@),
        r is None ==> remote_path(u@) is None,
{
    proof {
        reveal_strlit("git@");
        reveal_strlit("://");
    }
    let t = trim_chars(&to_chars(u));
    if starts_with_chars(&t, &to_chars("git@")) {
        let rest = skip_chars(&t, 4);
        let mut colon: Vec<char> = Vec::new();
        colon.push(':');
        assert(colon@ =~= seq![':']);
        match find_chars(&rest, &colon) {
            Some(i) => {
                proof {
                    lemma_find_from(rest@, colon@, 0);
                    assert(find_from(rest@, colon@, 0) == Some(i as int));
                    assert(occurs_at(rest@, colon@, i as int));
                    assert(colon@.len() == 1);
                    assert(i + 1 <= rest.len());
                }
                Some(skip_chars(&rest, i + 1))
            },
            None => None,
        }
    } else {
        let sep = to_chars("://");
        match find_chars(&t, &sep) {
            Some(i) => {
                proof {
                    lemma_find_from(t@, sep@, 0);
                    assert(find_from(t@, sep@, 0) == Some(i as int));
                    assert(occurs_at(t@, sep@, i as int));
                    assert(sep@.len() == 3);
                    assert(i + 3 <= t.len());
                }
                let rest = skip_chars(&t, i + 3);
                let mut slash: Vec<char> = Vec::new();
                slash.push('/');
                assert(slash@ =~= seq!['/']);
                match find_chars(&rest, &slash) {
                    Some(j) => {
                        proof {
                            lemma_find_from(rest@, slash@, 0);
                            assert(find_from(rest@, slash@, 0) == Some(j as int));
                            assert(occurs_at(rest@, slash@, j as int));
                            assert(slash@.len() == 1);
                            assert(j + 1 <= rest.len());
                        }
                        Some(skip_chars(&rest, j + 1))
                    },
                    None => None,
                }
            },
            None => None,
        }
    }
}

/// Parses a git remote URL to "owner/name"; None on anything that does not
/// yield two path segments.
pub fn parse_repo(url: &str) -> (r: Option<String>)
    ensures
        r matches Some(s) ==> repo_of(url@) == Some(s@),
        r is None ==> repo_of(url@) is None,
{
    proof {
        reveal_strlit(".git");
    }
    let p = match remote_path_exec(url) {
        Some(p) => p,
        None => return None,
    };
    let p2 = if ends_with_chars(&p, &to_chars(".git")) {
        slice_chars(&p, 0, p.len() - 4)
    } else {
        slice_chars(&p, 0, p.len())
    };
    assert(p2@ == (if ends_with(p@, ".git"@) { p@.take(p@.len() - 4) } else { p@ })) by {
        assert(p@.subrange(0, p@.len() as int) =~= p@);
        assert(p@.len() >= 4 ==> p@.subrange(0, p@.len() - 4) =~= p@.take(p@.len() - 4));
    }
    let p3 = trim_end_char(&trim_start_char(&p2, '/'), '/');
    let segs = split_chars(&p3, '/');
    proof {
        lemma_split_nonempty(p3@, '/');
    }
    assert(segs.deep_view()[0] == segs@[0]@);
    if segs[0].len() > 0 && segs.len() >= 2 && segs[1].len() > 0 {
        assert(segs.deep_view()[1] == segs@[1]@);
        let mut sl: Vec<char> = Vec::new();
        sl.push('/');
        let out = concat_chars(&concat_chars(&segs[0], &sl), &segs[1]);
        assert(sl@ =~= seq!['/']);
        Some(from_chars(&out))
    } else {
        None
    }
}

// ------------------------------------------------------------ the plan
#[derive(Debug, Clone, Default, PartialEq)]
pub enum IssueState {
    #[default]
    Open,
    Closed,
}

#[derive(Debug, Clone, PartialEq)]
pub struct GhComment {
    pub id: i64,
    pub author: String,
    pub created: String,
    pub body: String,
}

pub struct GhCommentV {
    pub id: int,
    pub author: Seq<char>,
    pub created: Seq<char>,
    pub body: Seq<char>,
}

impl View for GhComment {
    type V = GhCommentV;

    open spec fn view(&self) -> GhCommentV {
        GhCommentV { id: self.id as int, author: self.author@, created: self.created@, body: self.body@ }
    }
}

impl GhComment {
    pub fn copy(&self) -> (r: GhComment)
        ensures
            r@ == self@,
    {
        GhComment { id: self.id, author: dup(&self.author), created: dup(&self.created), body: dup(&self.body) }
    }
}

/// One sync pass's view of a GitHub issue.
#[derive(Debug, Clone, Default)]
pub struct IssueSnapshot {
    pub state: IssueState,
    /// GitHub login of whoever closed it; empty if open or unknown.
    pub closed_by: String,
    pub comments: Vec<GhComment>,
}

pub struct SnapshotV {
    pub closed: bool,
    pub closed_by: Seq<char>,
    pub comments: Seq<GhCommentV>,
}

impl View for IssueSnapshot {
    type V = SnapshotV;

    open spec fn view(&self) -> SnapshotV {
        SnapshotV {
            closed: self.state is Closed,
            closed_by: self.closed_by@,
            comments: views(self.comments@),
        }
    }
}

#[derive(Debug, Clone, PartialEq)]
pub enum Action {
    EditIssue,
    CloseIssue,
    ReopenIssue,
    CompleteTodo { by: String },
    ReopenTodo { by: String },
    ImportComment(GhComment),
    PushComment { comment_id: String },
}

pub enum ActionV {
    EditIssue,
    CloseIssue,
    ReopenIssue,
    CompleteTodo(Seq<char>),
    ReopenTodo(Seq<char>),
    ImportComment(GhCommentV),
    PushComment(Seq<char>),
}

impl View for Action {
    type V = ActionV;

    open spec fn view(&self) -> ActionV {
        match self {
            Action::EditIssue => ActionV::EditIssue,
            Action::CloseIssue => ActionV::CloseIssue,
            Action::ReopenIssue => ActionV::ReopenIssue,
            Action::CompleteTodo { by } => ActionV::CompleteTodo(by@),
            Action::ReopenTodo { by } => ActionV::ReopenTodo(by@),
            Action::ImportComment(c) => ActionV::ImportComment(c@),
            Action::PushComment { comment_id } => ActionV::PushComment(comment_id@),
        }
    }
}

/// The state decision: when the todo changed since the last push, tally
/// wins (edit the issue, and close or reopen it to match); otherwise GitHub
/// wins (complete or reopen the todo to match the issue).
pub open spec fn state_actions(t: TodoV, link: LinkV, snap: SnapshotV) -> Seq<ActionV> {
    let completed = t.status == "completed"@;
    let closed = snap.closed;
    if text_lt(link.last_pushed, t.updated) {
        if completed && !closed {
            seq![ActionV::EditIssue, ActionV::CloseIssue]
        } else if !completed && closed {
            seq![ActionV::EditIssue, ActionV::ReopenIssue]
        } else {
            seq![ActionV::EditIssue]
        }
    } else if closed && !completed {
        seq![ActionV::CompleteTodo(snap.closed_by)]
    } else if !closed && completed {
        seq![ActionV::ReopenTodo(snap.closed_by)]
    } else {
        seq![]
    }
}

/// Some local comment carries this (non-zero) GitHub comment id.
pub open spec fn known_gh_id(cs: Seq<CommentV>, id: int) -> bool {
    id != 0 && exists|i: int| 0 <= i < cs.len() && #[trigger] cs[i].github_comment_id == id
}

/// A GitHub comment to pull: made at or after the last pull, and not one we
/// already hold.
pub open spec fn to_import(link: LinkV, cs: Seq<CommentV>) -> spec_fn(GhCommentV) -> bool {
    |g: GhCommentV| !text_lt(g.created, link.last_comment_pull) && !known_gh_id(cs, g.id)
}

/// A local comment to push: a note never sent to GitHub and not pulled from
/// it.
pub open spec fn to_push() -> spec_fn(CommentV) -> bool {
    |c: CommentV| c.kind == "note"@ && c.github_comment_id == 0 && !starts_with(c.author, "gh:"@)
}

/// The whole plan: state first, then pulls in issue order, then pushes in
/// comment order.
pub open spec fn planned(t: TodoV, link: LinkV, cs: Seq<CommentV>, snap: SnapshotV) -> Seq<ActionV> {
    state_actions(t, link, snap)
        + keep(snap.comments, to_import(link, cs)).map_values(|g: GhCommentV| ActionV::ImportComment(g))
        + keep(cs, to_push()).map_values(|c: CommentV| ActionV::PushComment(c.id))
}

fn knows_gh_id(cs: &Vec<Comment>, id: i64) -> (b: bool)
    ensures
        b == known_gh_id(views(cs@), id as int),
{
    if id == 0 {
        return false;
    }
    for i in 0..cs.len()
        invariant
            id != 0,
            forall|j: int| 0 <= j < i ==> #[trigger] views(cs@)[j].github_comment_id != id,
    {
        if cs[i].github_comment_id == id {
            assert(views(cs@)[i as int].github_comment_id == id);
            return true;
        }
    }
    false
}

/// What one sync pass does for a todo linked to an existing issue.
pub fn plan_actions(todo: &Todo, link: &GithubLink, todo_comments: &Vec<Comment>, snap: &IssueSnapshot) -> (acts: Vec<Action>)
    ensures
        views(acts@) == planned(todo@, link@, views(todo_comments@), snap@),
{
    let mut acts: Vec<Action> = Vec::new();
    let completed = is_text(todo.status.as_str(), "completed");
    let issue_closed = match snap.state {
        IssueState::Closed => true,
        IssueState::Open => false,
    };
    let tally_newer = chars_lt(&to_chars(link.last_pushed.as_str()), &to_chars(todo.updated.as_str()));
    if tally_newer {
        acts.push(Action::EditIssue);
        if completed && !issue_closed {
            acts.push(Action::CloseIssue);
        } else if !completed && issue_closed {
            acts.push(Action::ReopenIssue);
        }
    } else if issue_closed && !completed {
        acts.push(Action::CompleteTodo { by: dup(&snap.closed_by) });
    } else if !issue_closed && completed {
        acts.push(Action::ReopenTodo { by: dup(&snap.closed_by) });
    }
    let ghost s0 = views(acts@);
    assert(s0 =~= state_actions(todo@, link@, snap@));
    let ghost cs = views(todo_comments@);
    let ghost gs = snap@.comments;
    let ghost pi = to_import(link@, cs);
    let ghost fi = |g: GhCommentV| ActionV::ImportComment(g);
    let pull = to_chars(link.last_comment_pull.as_str());
    for i in 0..snap.comments.len()
        invariant
            gs == views(snap.comments@),
            cs == views(todo_comments@),
            pi == to_import(link@, cs),
            fi == (|g: GhCommentV| ActionV::ImportComment(g)),
            pull@ == link@.last_comment_pull,
            views(acts@) == s0 + keep(gs.take(i as int), pi).map_values(fi),
    {
        proof {
            lemma_keep_step(gs, i as int, pi);
        }
        let gc = &snap.comments[i];
        if !chars_lt(&to_chars(gc.created.as_str()), &pull) && !knows_gh_id(todo_comments, gc.id) {
            let ghost before = views(acts@);
            let c = gc.copy();
            acts.push(Action::ImportComment(c));
            assert(views(acts@) =~= before.push(fi(gs[i as int])));
            assert(keep(gs.take(i as int), pi).push(gs[i as int]).map_values(fi) =~= keep(gs.take(i as int), pi).map_values(fi).push(fi(gs[i as int])));
            assert(views(acts@) =~= s0 + keep(gs.take(i + 1), pi).map_values(fi));
        }
    }
    proof {
        lemma_keep_all(gs, pi);
    }
    let ghost s1 = views(acts@);
    let ghost pp = to_push();
    let ghost fp = |c: CommentV| ActionV::PushComment(c.id);
    let gh = to_chars("gh:");
    for i in 0..todo_comments.len()
        invariant
            cs == views(todo_comments@),
            pp == to_push(),
            fp == (|c: CommentV| ActionV::PushComment(c.id)),
            gh@ == "gh:"@,
            views(acts@) == s1 + keep(cs.take(i as int), pp).map_values(fp),
    {
        proof {
            lemma_keep_step(cs, i as int, pp);
        }
        let c = &todo_comments[i];
        if is_text(c.kind.as_str(), "note") && c.github_comment_id == 0 && !starts_with_chars(&to_chars(c.author.as_str()), &gh) {
            let ghost before = views(acts@);
            acts.push(Action::PushComment { comment_id: dup(&c.id) });
            assert(views(acts@) =~= before.push(fp(cs[i as int])));
            assert(keep(cs.take(i as int), pp).push(cs[i as int]).map_values(fp) =~= keep(cs.take(i as int), pp).map_values(fp).push(fp(cs[i as int])));
            assert(views(acts@) =~= s1 + keep(cs.take(i + 1), pp).map_values(fp));
        }
    }
    proof {
        lemma_keep_all(cs, pp);
    }
    acts
}

// ------------------------------------------------------------ the pass's report
/// What one sync pass did.
#[derive(Debug, Clone, Default)]
pub struct SyncReport {
    /// Whether `gh` was reached and authenticated; false when nothing was
    /// linked, since the pass then never asks.
    pub gh_available: bool,
    pub checked: u64,
    pub created: u64,
    pub pushed: u64,
    pub state_changes: u64,
    pub pulled_comments: u64,
    pub pushed_comments: u64,
    pub errors: Vec<String>,
}

pub open spec fn error_lines(es: Seq<Seq<char>>) -> Seq<char> {
    crate::cli::concat_all(es.map_values(|e: Seq<char>| "  ! "@ + e + "\n"@))
}

/// The human-readable report of a pass.
pub open spec fn report_text(r: SyncReport) -> Seq<char> {
    let es = r.errors.deep_view();
    if !r.gh_available && es.len() == 0 {
        "nothing to sync (no linked todos)\n"@
    } else if !r.gh_available {
        "sync skipped: gh unavailable or not authenticated\n"@ + error_lines(es)
    } else {
        "synced "@ + dec_digits(r.checked as nat) + " todo(s): "@ + dec_digits(r.created as nat) + " created, "@
            + dec_digits(r.pushed as nat) + " pushed, "@ + dec_digits(r.state_changes as nat)
            + " state change(s), "@ + dec_digits(r.pulled_comments as nat) + " comment(s) in, "@
            + dec_digits(r.pushed_comments as nat) + " out"@ + (if es.len() == 0 {
            Seq::empty()
        } else {
            ", "@ + dec_digits(es.len()) + " error(s)"@
        }) + "\n"@ + error_lines(es)
    }
}

fn num_text(n: u64) -> (r: String)
    ensures
        r@ == dec_digits(n as nat),
{
    from_chars(&fmt_u64(n))
}

fn error_lines_exec(es: &Vec<String>) -> (r: String)
    ensures
        r@ == error_lines(es.deep_view()),
{
    let ghost f = |e: Seq<char>| "  ! "@ + e + "\n"@;
    let ghost ev = es.deep_view();
    let mut out = String::new();
    for i in 0..es.len()
        invariant
            ev == es.deep_view(),
            f == (|e: Seq<char>| "  ! "@ + e + "\n"@),
            out@ == crate::cli::concat_all(ev.take(i as int).map_values(f)),
    {
        let line = cat(cat("  ! ", es[i].as_str()).as_str(), "\n");
        assert(ev[i as int] == es@[i as int]@);
        assert(ev.take(i + 1).map_values(f) =~= ev.take(i as int).map_values(f).push(f(ev[i as int])));
        assert(ev.take(i + 1).map_values(f).drop_last() =~= ev.take(i as int).map_values(f));
        out = cat(out.as_str(), line.as_str());
    }
    assert(ev.take(es.len() as int) =~= ev);
    out
}

/// The report as the command line prints it.
pub fn sync_report_text(r: &SyncReport) -> (t: String)
    ensures
        t@ == report_text(*r),
{
    if !r.gh_available && r.errors.len() == 0 {
        return from_chars(&to_chars("nothing to sync (no linked todos)\n"));
    }
    let lines = error_lines_exec(&r.errors);
    if !r.gh_available {
        return cat("sync skipped: gh unavailable or not authenticated\n", lines.as_str());
    }
    let mut t = cat("synced ", num_text(r.checked).as_str());
    t = cat(t.as_str(), " todo(s): ");
    t = cat(t.as_str(), num_text(r.created).as_str());
    t = cat(t.as_str(), " created, ");
    t = cat(t.as_str(), num_text(r.pushed).as_str());
    t = cat(t.as_str(), " pushed, ");
    t = cat(t.as_str(), num_text(r.state_changes).as_str());
    t = cat(t.as_str(), " state change(s), ");
    t = cat(t.as_str(), num_text(r.pulled_comments).as_str());
    t = cat(t.as_str(), " comment(s) in, ");
    t = cat(t.as_str(), num_text(r.pushed_comments).as_str());
    t = cat(t.as_str(), " out");
    if r.errors.len() > 0 {
        t = cat(t.as_str(), ", ");
        t = cat(t.as_str(), num_text(r.errors.len() as u64).as_str());
        t = cat(t.as_str(), " error(s)");
    }
    t = cat(t.as_str(), "\n");
    cat(t.as_str(), lines.as_str())
}

/// A todo whose GitHub link is on.
pub open spec fn linked(t: TodoV) -> bool {
    t.github matches Some(l) && !l.paused
}

impl crate::project::Project {
    /// Does some todo have an active GitHub link? A pass with none has
    /// nothing to do and never asks `gh`.
    pub fn has_active_links(&self) -> (b: bool)
        ensures
            b == exists|i: int| 0 <= i < self@.todos.len() && linked(#[trigger] self@.todos[i]),
    {
        for i in 0..self.todos.len()
            invariant
                forall|j: int| 0 <= j < i ==> !linked(#[trigger] self@.todos[j]),
        {
            match &self.todos[i].github {
                Some(l) => {
                    if !l.paused {
                        assert(linked(self@.todos[i as int]));
                        return true;
                    }
                },
                None => {},
            }
        }
        false
    }
}


// ------------------------------------------------------------ sync bookkeeping
/// How many decimal digits end the text.
pub open spec fn trailing_digits(s: Seq<char>) -> nat
    decreases s.len(),
{
    if s.len() > 0 && is_digit(s.last()) {
        trailing_digits(s.drop_last()) + 1
    } else {
        0
    }
}

/// The number at the end of a GitHub URL (`…/issues/12`,
/// `…#issuecomment-34`): its trailing digits, when there are some and they
/// fit an `i64`.
pub open spec fn url_number(url: Seq<char>) -> Option<int> {
    let k = trailing_digits(url);
    if k == 0 {
        None
    } else {
        parse_int(url.skip(url.len() - k))
    }
}

/// The number at the end of a GitHub URL (see `url_number`).
pub fn url_number_exec(url: &str) -> (r: Option<i64>)
    ensures
        r matches Some(n) ==> url_number(url@) == Some(n as int),
        r is None ==> url_number(url@) is None,
{
    let v = to_chars(url);
    let mut i = v.len();
    assert(v@.take(i as int) =~= v@);
    while i > 0 && '0' <= v[i - 1] && v[i - 1] <= '9'
        invariant
            v@ == url@,
            i <= v.len(),
            trailing_digits(v@) == trailing_digits(v@.take(i as int)) + (v.len() - i),
        decreases i,
    {
        assert(v@.take(i as int).drop_last() =~= v@.take(i - 1));
        i = i - 1;
    }
    assert(trailing_digits(v@.take(i as int)) == 0);
    if i == v.len() {
        return None;
    }
    let digits = skip_chars(&v, i);
    parse_i64(&digits)
}

/// What a sync pass starts with for a linked todo: an issue is created for
/// a link that has no issue number yet; otherwise the issue is read and
/// reconciled.
#[derive(Clone, Copy, Debug, PartialEq, Eq)]
pub enum SyncStart {
    CreateIssue,
    Reconcile,
}

pub fn sync_start(link: &GithubLink) -> (r: SyncStart)
    ensures
        r == (if link@.number == 0 { SyncStart::CreateIssue } else { SyncStart::Reconcile }),
{
    if link.number == 0 {
        SyncStart::CreateIssue
    } else {
        SyncStart::Reconcile
    }
}

/// The link once a pass is done with it: the todo's `updated` stamp as the
/// last push, and the pass's time as the last comment pull.
pub open spec fn synced_link(link: LinkV, updated: Seq<char>, now: Seq<char>) -> LinkV {
    LinkV { last_pushed: updated, last_comment_pull: now, ..link }
}

pub fn link_synced(link: &GithubLink, updated: &str, now: &str) -> (r: GithubLink)
    ensures
        r@ == synced_link(link@, updated@, now@),
{
    GithubLink {
        repo: dup(&link.repo),
        number: link.number,
        last_pushed: updated.to_string(),
        last_comment_pull: now.to_string(),
        paused: link.paused,
    }
}

/// The link after its issue was created at `issue_url`: the number at the
/// end of the URL, and stamped as `synced_link` does; None when the URL ends
/// in no number.
pub open spec fn created_link(link: LinkV, issue_url: Seq<char>, updated: Seq<char>, now: Seq<char>) -> Option<LinkV> {
    match url_number(issue_url) {
        Some(n) => Some(synced_link(LinkV { number: n, ..link }, updated, now)),
        None => None,
    }
}

pub fn link_created(link: &GithubLink, issue_url: &str, updated: &str, now: &str) -> (r: Option<GithubLink>)
    ensures
        r is None <==> created_link(link@, issue_url@, updated@, now@) is None,
        r matches Some(l) ==> created_link(link@, issue_url@, updated@, now@) == Some(l@),
{
    match url_number_exec(issue_url) {
        Some(n) => {
            let l = GithubLink {
                repo: dup(&link.repo),
                number: n,
                last_pushed: updated.to_string(),
                last_comment_pull: now.to_string(),
                paused: link.paused,
            };
            Some(l)
        },
        None => None,
    }
}

/// The first comment with this id.
pub open spec fn comment_index(cs: Seq<CommentV>, id: Seq<char>) -> Option<int>
    decreases cs.len(),
{
    if cs.len() == 0 {
        None
    } else {
        match comment_index(cs.drop_last(), id) {
            Some(i) => Some(i),
            None => if cs.last().id == id {
                Some(cs.len() - 1)
            } else {
                None
            },
        }
    }
}

proof fn lemma_comment_index(cs: Seq<CommentV>, id: Seq<char>)
    ensures
        comment_index(cs, id) matches Some(i) ==> 0 <= i < cs.len() && cs[i].id == id,
    decreases cs.len(),
{
    if cs.len() > 0 {
        lemma_comment_index(cs.drop_last(), id);
    }
}

impl crate::project::Project {
    fn find_comment(&self, id: &str) -> (r: Option<usize>)
        ensures
            r matches Some(i) ==> comment_index(self@.comments, id@) == Some(i as int),
            r is None ==> comment_index(self@.comments, id@) is None,
    {
        let ghost cs = self@.comments;
        let idv = to_chars(id);
        let mut i: usize = 0;
        while i < self.comments.len()
            invariant
                cs == self@.comments,
                idv@ == id@,
                i <= self.comments.len(),
                comment_index(cs.take(i as int), id@) is None,
            decreases self.comments.len() - i,
        {
            assert(cs.take(i + 1).drop_last() =~= cs.take(i as int));
            if is_text(self.comments[i].id.as_str(), id) {
                proof {
                    lemma_comment_index_prefix(cs, i + 1, id@);
                }
                return Some(i);
            }
            i = i + 1;
        }
        assert(cs.take(self.comments.len() as int) =~= cs);
        None
    }

    /// The text of the first comment with this id.
    pub fn comment_text(&self, id: &str) -> (r: Option<String>)
        ensures
            match comment_index(self@.comments, id@) {
                Some(i) => r matches Some(t) && t@ == self@.comments[i].text,
                None => r is None,
            },
    {
        match self.find_comment(id) {
            Some(i) => {
                proof {
                    lemma_comment_index(self@.comments, id@);
                }
                Some(dup(&self.comments[i].text))
            },
            None => None,
        }
    }

    /// Records the GitHub id the first comment with this id got when it was
    /// pushed; nothing changes when there is no such comment.
    pub fn mark_comment_pushed(&mut self, id: &str, gh_id: i64)
        ensures
            match comment_index(old(self)@.comments, id@) {
                Some(i) => final(self)@.comments == old(self)@.comments.update(
                    i,
                    CommentV { github_comment_id: gh_id as int, ..old(self)@.comments[i] },
                ),
                None => final(self)@.comments == old(self)@.comments,
            },
            same_but_comments(old(self)@, final(self)@),
    {
        match self.find_comment(id) {
            Some(i) => {
                proof {
                    lemma_comment_index(self@.comments, id@);
                }
                let mut c = self.comments[i].copy();
                c.github_comment_id = gh_id;
                let ghost before = views(self.comments@);
                self.comments.set(i, c);
                assert(views(self.comments@) =~= before.update(i as int, c@));
            },
            None => {},
        }
    }

    /// Records a comment pulled from a todo's GitHub issue: a note on the
    /// todo by "gh:<login>" that carries the GitHub comment's id.
    pub fn import_gh_comment(&mut self, todo_id: &str, gc: &GhComment) -> (r: Comment)
        ensures
            made_comment(
                CommentV { github_comment_id: 0, ..r@ },
                "gh:"@ + gc.author@,
                todo_id@,
                ""@,
                "note"@,
                gc.body@,
            ),
            r@.github_comment_id == gc.id,
            final(self)@.comments == old(self)@.comments.push(r@),
            same_but_comments(old(self)@, final(self)@),
    {
        let actor = dup(&self.actor);
        self.actor = cat("gh:", gc.author.as_str());
        let added = self.add_comment(todo_id, "", gc.body.as_str());
        self.actor = actor;
        let mut c = match added {
            Ok(c) => c,
            Err(_) => {
                assert(false);
                return Comment {
                    id: String::new(),
                    target: String::new(),
                    section: String::new(),
                    author: String::new(),
                    created: String::new(),
                    kind: String::new(),
                    text: String::new(),
                    github_comment_id: 0,
                };
            },
        };
        c.github_comment_id = gc.id;
        assert(views(self.comments@).len() == self.comments@.len());
        let n = self.comments.len();
        let ghost before = views(self.comments@);
        self.comments.set(n - 1, c.copy());
        assert(views(self.comments@) =~= before.update(n - 1, c@));
        assert(views(self.comments@) =~= old(self)@.comments.push(c@));
        c
    }
}

/// A first occurrence in a prefix is the first occurrence in the whole.
proof fn lemma_comment_index_prefix(cs: Seq<CommentV>, n: int, id: Seq<char>)
    requires
        0 <= n <= cs.len(),
        comment_index(cs.take(n), id) is Some,
    ensures
        comment_index(cs, id) == comment_index(cs.take(n), id),
    decreases cs.len() - n,
{
    if n < cs.len() {
        assert(cs.take(n + 1).drop_last() =~= cs.take(n));
        lemma_comment_index_prefix(cs, n + 1, id);
    } else {
        assert(cs.take(n) =~= cs);
    }
}

} // verus!
