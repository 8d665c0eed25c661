//! Todos: the data model, status/priority normalization, blocker checks,
//! filtering, sorting and paging.
use vstd::prelude::*;
use crate::clock::{is_stamp, now};
use crate::comments::{CommentV, made_comment, norm_target, off_target};
use crate::errors::{Error, Result, debug_str, debug_text};
use crate::ids::is_id;
use crate::order::{
    text_lt, chars_lt, SortKey, stable_sort, before_fn, views, sort_stable, keep, lemma_keep_step,
    lemma_keep_all, ascending, insert_sorted_unique, lemma_take_contains,
};
use crate::project::{Project, ProjectV};
use crate::sync::{parse_repo, repo_of};
use crate::text::{
    contains_seq, contains_chars, dup, dup_all, eq_chars, from_chars, is_blank, is_text, lower,
    to_chars, to_lower, trim, trim_chars, cat, has_string,
};

verus! {

/// Advisory lock breadcrumb on a todo.
#[derive(Debug, Clone, Default)]
pub struct Lock {
    pub owner: String,
    pub pid: i64,
    pub at: String,
}

/// Opt-in GitHub sync link for a single todo.
#[derive(Debug, Clone, Default, PartialEq)]
pub struct GithubLink {
    pub repo: String,
    pub number: i64,
    pub last_pushed: String,
    pub last_comment_pull: String,
    pub paused: bool,
}

#[derive(Debug, Clone, Default)]
pub struct Todo {
    pub id: String,
    pub title: String,
    pub body: String,
    pub status: String,
    pub priority: String,
    pub tags: Vec<String>,
    pub blockers: Vec<String>,
    pub lock: Option<Lock>,
    pub created: String,
    pub updated: String,
    pub completed: Option<String>,
    /// Who created / last mutated this; empty on todos written before
    /// attribution existed.
    pub created_by: String,
    pub updated_by: String,
    pub github: Option<GithubLink>,
}

pub struct LockV {
    pub owner: Seq<char>,
    pub pid: int,
    pub at: Seq<char>,
}

pub struct LinkV {
    pub repo: Seq<char>,
    pub number: int,
    pub last_pushed: Seq<char>,
    pub last_comment_pull: Seq<char>,
    pub paused: bool,
}

pub struct TodoV {
    pub id: Seq<char>,
    pub title: Seq<char>,
    pub body: Seq<char>,
    pub status: Seq<char>,
    pub priority: Seq<char>,
    pub tags: Seq<Seq<char>>,
    pub blockers: Seq<Seq<char>>,
    pub lock: Option<LockV>,
    pub created: Seq<char>,
    pub updated: Seq<char>,
    pub completed: Option<Seq<char>>,
    pub created_by: Seq<char>,
    pub updated_by: Seq<char>,
    pub github: Option<LinkV>,
}

impl View for Lock {
    type V = LockV;

    open spec fn view(&self) -> LockV {
        LockV { owner: self.owner@, pid: self.pid as int, at: self.at@ }
    }
}

impl View for GithubLink {
    type V = LinkV;

    open spec fn view(&self) -> LinkV {
        LinkV {
            repo: self.repo@,
            number: self.number as int,
            last_pushed: self.last_pushed@,
            last_comment_pull: self.last_comment_pull@,
            paused: self.paused,
        }
    }
}

pub open spec fn lock_view(l: Option<Lock>) -> Option<LockV> {
    match l {
        Some(x) => Some(x@),
        None => None,
    }
}

pub open spec fn link_view(l: Option<GithubLink>) -> Option<LinkV> {
    match l {
        Some(x) => Some(x@),
        None => None,
    }
}

impl View for Todo {
    type V = TodoV;

    open spec fn view(&self) -> TodoV {
        TodoV {
            id: self.id@,
            title: self.title@,
            body: self.body@,
            status: self.status@,
            priority: self.priority@,
            tags: self.tags.deep_view(),
            blockers: self.blockers.deep_view(),
            lock: lock_view(self.lock),
            created: self.created@,
            updated: self.updated@,
            completed: self.completed.deep_view(),
            created_by: self.created_by@,
            updated_by: self.updated_by@,
            github: link_view(self.github),
        }
    }
}

impl Lock {
    pub fn copy(&self) -> (r: Lock)
        ensures
            r@ == self@,
    {
        Lock { owner: dup(&self.owner), pid: self.pid, at: dup(&self.at) }
    }
}

impl GithubLink {
    pub fn copy(&self) -> (r: GithubLink)
        ensures
            r@ == self@,
    {
        GithubLink {
            repo: dup(&self.repo),
            number: self.number,
            last_pushed: dup(&self.last_pushed),
            last_comment_pull: dup(&self.last_comment_pull),
            paused: self.paused,
        }
    }
}

pub fn dup_opt(s: &Option<String>) -> (r: Option<String>)
    ensures
        r.deep_view() == s.deep_view(),
{
    match s {
        Some(x) => Some(dup(x)),
        None => None,
    }
}

impl Todo {
    /// A field-by-field copy.
    pub fn copy(&self) -> (r: Todo)
        ensures
            r@ == self@,
    {
        Todo {
            id: dup(&self.id),
            title: dup(&self.title),
            body: dup(&self.body),
            status: dup(&self.status),
            priority: dup(&self.priority),
            tags: dup_all(&self.tags),
            blockers: dup_all(&self.blockers),
            lock: match &self.lock {
                Some(l) => Some(l.copy()),
                None => None,
            },
            created: dup(&self.created),
            updated: dup(&self.updated),
            completed: dup_opt(&self.completed),
            created_by: dup(&self.created_by),
            updated_by: dup(&self.updated_by),
            github: match &self.github {
                Some(l) => Some(l.copy()),
                None => None,
            },
        }
    }
}

/// Copies every todo.
pub fn copy_todos(v: &Vec<Todo>) -> (r: Vec<Todo>)
    ensures
        views(r@) == views(v@),
{
    let mut r: Vec<Todo> = Vec::new();
    for i in 0..v.len()
        invariant
            views(r@) == views(v@).take(i as int),
    {
        let ghost before = views(r@);
        let c = v[i].copy();
        r.push(c);
        assert(views(r@) =~= before.push(c@));
        assert(views(r@) =~= views(v@).take(i + 1));
    }
    assert(views(v@).take(v.len() as int) =~= views(v@));
    r
}

// -------------------------------------------------------- normalization
/// Spaces and hyphens turned into underscores.
pub open spec fn underscored(s: Seq<char>) -> Seq<char> {
    s.map_values(|c: char| if c == ' ' || c == '-' { '_' } else { c })
}

/// The canonical spelling a status input is reduced to before checking.
pub open spec fn status_key(raw: Seq<char>) -> Seq<char> {
    underscored(lower(trim(raw)))
}

pub open spec fn is_status(s: Seq<char>) -> bool {
    s == "open"@ || s == "in_progress"@ || s == "completed"@
}

pub open spec fn status_error(raw: Seq<char>) -> Seq<char> {
    "invalid status "@ + debug_text(raw) + ": expected open, in_progress, or completed"@
}

/// Reduces a user-typed status to one of open, in_progress, completed
/// (case, surrounding space, and space/hyphen-vs-underscore are forgiven);
/// anything else is rejected.
pub fn normalize_status(raw: &str) -> (r: Result<String>)
    ensures
        is_status(status_key(raw@)) ==> (r matches Ok(s) && s@ == status_key(raw@)),
        !is_status(status_key(raw@)) ==> (r matches Err(Error::Other(m)) && m@ == status_error(raw@)),
{
    let t = from_chars(&trim_chars(&to_chars(raw)));
    let l = to_chars(to_lower(t.as_str()).as_str());
    let mut u: Vec<char> = Vec::new();
    for i in 0..l.len()
        invariant
            u@ == underscored(l@).take(i as int),
            l@ == lower(trim(raw@)),
    {
        let c = l[i];
        u.push(if c == ' ' || c == '-' { '_' } else { c });
        assert(u@ =~= underscored(l@).take(i + 1));
    }
    assert(underscored(l@).take(l.len() as int) =~= underscored(l@));
    let s = from_chars(&u);
    if is_text(s.as_str(), "open") || is_text(s.as_str(), "in_progress") || is_text(s.as_str(), "completed") {
        Ok(s)
    } else {
        let m = cat(cat("invalid status ", debug_str(raw).as_str()).as_str(), ": expected open, in_progress, or completed");
        Err(Error::Other(m))
    }
}

pub open spec fn priority_key(raw: Seq<char>) -> Seq<char> {
    lower(trim(raw))
}

pub open spec fn is_priority(s: Seq<char>) -> bool {
    s == "high"@ || s == "medium"@ || s == "low"@
}

pub open spec fn priority_error(raw: Seq<char>) -> Seq<char> {
    "invalid priority "@ + debug_text(raw) + ": expected high, medium, or low"@
}

/// Reduces a user-typed priority to high, medium or low; anything else is
/// rejected.
pub fn normalize_priority(raw: &str) -> (r: Result<String>)
    ensures
        is_priority(priority_key(raw@)) ==> (r matches Ok(s) && s@ == priority_key(raw@)),
        !is_priority(priority_key(raw@)) ==> (r matches Err(Error::Other(m)) && m@ == priority_error(raw@)),
{
    let t = from_chars(&trim_chars(&to_chars(raw)));
    let s = to_lower(t.as_str());
    if is_text(s.as_str(), "high") || is_text(s.as_str(), "medium") || is_text(s.as_str(), "low") {
        Ok(s)
    } else {
        let m = cat(cat("invalid priority ", debug_str(raw).as_str()).as_str(), ": expected high, medium, or low");
        Err(Error::Other(m))
    }
}

// -------------------------------------------------------- blockers
/// The status of the last todo with the given id (a map built by inserting
/// every todo in order keeps the last one).
pub open spec fn last_status(all: Seq<TodoV>, id: Seq<char>) -> Option<Seq<char>>
    decreases all.len(),
{
    if all.len() == 0 {
        None
    } else if all.last().id == id {
        Some(all.last().status)
    } else {
        last_status(all.drop_last(), id)
    }
}

/// Some blocker of `t` is not a completed todo of `all`.
pub open spec fn is_blocked_by(t: TodoV, all: Seq<TodoV>) -> bool {
    exists|i: int| 0 <= i < t.blockers.len() && last_status(all, #[trigger] t.blockers[i]) != Some("completed"@)
}

fn last_status_exec(all: &Vec<Todo>, id: &Vec<char>) -> (r: Option<Vec<char>>)
    ensures
        r matches Some(s) ==> last_status(views(all@), id@) == Some(s@),
        r is None ==> last_status(views(all@), id@) is None,
{
    let mut i = all.len();
    assert(views(all@).take(i as int) =~= views(all@));
    while i > 0
        invariant
            i <= all.len(),
            last_status(views(all@), id@) == last_status(views(all@).take(i as int), id@),
        decreases i,
    {
        let ghost s = views(all@).take(i as int);
        assert(s.drop_last() =~= views(all@).take(i - 1));
        if eq_chars(&to_chars(all[i - 1].id.as_str()), id) {
            return Some(to_chars(all[i - 1].status.as_str()));
        }
        i -= 1;
    }
    None
}

/// Is `t` blocked by a todo in `all` that is not completed (or missing)?
pub fn blocked_against(t: &Todo, all: &Vec<Todo>) -> (b: bool)
    ensures
        b == is_blocked_by(t@, views(all@)),
{
    let done = to_chars("completed");
    assert(views(all@).take(all.len() as int) =~= views(all@));
    for i in 0..t.blockers.len()
        invariant
            done@ == "completed"@,
            forall|j: int| 0 <= j < i ==> last_status(views(all@), #[trigger] t@.blockers[j]) == Some("completed"@),
    {
        let b = to_chars(t.blockers[i].as_str());
        match last_status_exec(all, &b) {
            Some(s) => {
                if !eq_chars(&s, &done) {
                    assert(last_status(views(all@), t@.blockers[i as int]) != Some("completed"@));
                    return true;
                }
            },
            None => {
                assert(last_status(views(all@), t@.blockers[i as int]) != Some("completed"@));
                return true;
            },
        }
    }
    false
}

/// `want.iter().all(|w| have.contains(w))`.
pub open spec fn has_all(have: Seq<Seq<char>>, want: Seq<Seq<char>>) -> bool {
    forall|i: int| 0 <= i < want.len() ==> have.contains(#[trigger] want[i])
}

pub fn has_all_tags(have: &Vec<String>, want: &Vec<String>) -> (b: bool)
    ensures
        b == has_all(have.deep_view(), want.deep_view()),
{
    for i in 0..want.len()
        invariant
            forall|j: int| 0 <= j < i ==> have.deep_view().contains(#[trigger] want.deep_view()[j]),
    {
        if !has_string(have, want[i].as_str()) {
            assert(want.deep_view()[i as int] == want[i as int]@);
            assert(!have.deep_view().contains(want.deep_view()[i as int]));
            return false;
        }
    }
    true
}

// -------------------------------------------------------- paging
/// Negative offset behaves like 0, an offset past the end yields nothing, and
/// a limit of 0 or less means no limit.
pub open spec fn paged<V>(s: Seq<V>, offset: int, limit: int) -> Seq<V> {
    let off = if offset < 0 { 0 } else if offset > s.len() { s.len() as int } else { offset };
    let rest = s.skip(off);
    if limit > 0 && limit < rest.len() {
        rest.take(limit)
    } else {
        rest
    }
}

pub fn page<T>(s: Vec<T>, offset: i64, limit: i64) -> (r: Vec<T>)
    ensures
        r@ == paged(s@, offset as int, limit as int),
{
    let n = s.len();
    let off: usize = if offset < 0 {
        0
    } else if offset as u64 > n as u64 {
        n
    } else {
        offset as usize
    };
    let mut s = s;
    let mut rest = s.split_off(off);
    if limit > 0 && (limit as u64) < (rest.len() as u64) {
        rest.truncate(limit as usize);
    }
    assert(rest@ =~= paged(s@ + rest@, offset as int, limit as int)) by {
        assert((s@ + rest@).skip(off as int) =~= rest@);
    }
    rest
}

// -------------------------------------------------------- sorting
/// Rank used by the "priority" sort: high first; unknown values rank with high.
pub open spec fn prio_rank(p: Seq<char>) -> int {
    if p == "medium"@ {
        1
    } else if p == "low"@ {
        2
    } else {
        0
    }
}

pub fn prio_rank_exec(p: &str) -> (r: i32)
    ensures
        r == prio_rank(p@),
{
    if is_text(p, "medium") {
        1
    } else if is_text(p, "low") {
        2
    } else {
        0
    }
}

pub open spec fn opt_text(s: Option<Seq<char>>) -> Seq<char> {
    match s {
        Some(x) => x,
        None => Seq::empty(),
    }
}

/// The sort orders a todo list accepts, by name.
pub open spec fn sort_mode(key: Seq<char>) -> u8 {
    if key == "priority"@ {
        1
    } else if key == "created-asc"@ {
        2
    } else if key == "updated-desc"@ {
        3
    } else if key == "updated-asc"@ {
        4
    } else if key == "completed-desc"@ {
        5
    } else if key == "completed-asc"@ {
        6
    } else {
        0
    }
}

impl SortKey for Todo {
    /// `a` sorts strictly before `b`: 1 by priority rank; 2 created ascending;
    /// 3 updated descending; 4 updated ascending; 5 completed descending;
    /// 6 completed ascending; anything else created descending.
    open spec fn before(a: TodoV, b: TodoV, mode: u8) -> bool {
        if mode == 1 {
            prio_rank(a.priority) < prio_rank(b.priority)
        } else if mode == 2 {
            text_lt(a.created, b.created)
        } else if mode == 3 {
            text_lt(b.updated, a.updated)
        } else if mode == 4 {
            text_lt(a.updated, b.updated)
        } else if mode == 5 {
            text_lt(opt_text(b.completed), opt_text(a.completed))
        } else if mode == 6 {
            text_lt(opt_text(a.completed), opt_text(b.completed))
        } else {
            text_lt(b.created, a.created)
        }
    }

    fn before_exec(a: &Todo, b: &Todo, mode: u8) -> (r: bool) {
        if mode == 1 {
            prio_rank_exec(a.priority.as_str()) < prio_rank_exec(b.priority.as_str())
        } else if mode == 2 {
            chars_lt(&to_chars(a.created.as_str()), &to_chars(b.created.as_str()))
        } else if mode == 3 {
            chars_lt(&to_chars(b.updated.as_str()), &to_chars(a.updated.as_str()))
        } else if mode == 4 {
            chars_lt(&to_chars(a.updated.as_str()), &to_chars(b.updated.as_str()))
        } else if mode == 5 {
            chars_lt(&opt_chars(&b.completed), &opt_chars(&a.completed))
        } else if mode == 6 {
            chars_lt(&opt_chars(&a.completed), &opt_chars(&b.completed))
        } else {
            chars_lt(&to_chars(b.created.as_str()), &to_chars(a.created.as_str()))
        }
    }
}

fn opt_chars(s: &Option<String>) -> (r: Vec<char>)
    ensures
        r@ == opt_text(s.deep_view()),
{
    match s {
        Some(x) => to_chars(x.as_str()),
        None => Vec::new(),
    }
}

pub fn sort_mode_exec(key: &str) -> (m: u8)
    ensures
        m == sort_mode(key@),
{
    if is_text(key, "priority") {
        1
    } else if is_text(key, "created-asc") {
        2
    } else if is_text(key, "updated-desc") {
        3
    } else if is_text(key, "updated-asc") {
        4
    } else if is_text(key, "completed-desc") {
        5
    } else if is_text(key, "completed-asc") {
        6
    } else {
        0
    }
}

/// The order `sort_todos` leaves a list in for the named sort key.
pub open spec fn sorted_todos(ts: Seq<TodoV>, key: Seq<char>) -> Seq<TodoV> {
    stable_sort(ts, before_fn::<Todo>(sort_mode(key)))
}

/// Stable sort by the named key (default: created, newest first).
pub fn sort_todos(ts: Vec<Todo>, key: &str) -> (r: Vec<Todo>)
    ensures
        views(r@) == sorted_todos(views(ts@), key@),
{
    sort_stable(ts, sort_mode_exec(key))
}


// -------------------------------------------------------- the store's todos
#[derive(Debug, Clone, Default)]
pub struct TodoFilter {
    pub status: String,
    pub completed: Option<bool>,
    pub is_blocked: Option<bool>,
    pub priority: String,
    pub query: String,
    pub tags: Vec<String>,
    /// priority|created-desc|created-asc|updated-desc|updated-asc|completed-desc|completed-asc
    pub sort: String,
    pub offset: i64,
    pub limit: i64,
}

pub struct FilterV {
    pub status: Seq<char>,
    pub completed: Option<bool>,
    pub is_blocked: Option<bool>,
    pub priority: Seq<char>,
    pub query: Seq<char>,
    pub tags: Seq<Seq<char>>,
    pub sort: Seq<char>,
    pub offset: int,
    pub limit: int,
}

impl View for TodoFilter {
    type V = FilterV;

    open spec fn view(&self) -> FilterV {
        FilterV {
            status: self.status@,
            completed: self.completed,
            is_blocked: self.is_blocked,
            priority: self.priority@,
            query: self.query@,
            tags: self.tags.deep_view(),
            sort: self.sort@,
            offset: self.offset as int,
            limit: self.limit as int,
        }
    }
}

#[derive(Debug, Clone, Default)]
pub struct TodoUpdate {
    pub title: Option<String>,
    pub body: Option<String>,
    pub priority: Option<String>,
    pub status: Option<String>,
    /// Replaces the whole tag list (add_todo_tag preserves existing tags).
    pub tags: Option<Vec<String>>,
    /// When set, the update only applies if the todo's `updated` stamp still
    /// equals it; otherwise it fails with ConcurrentEdit and nothing changes.
    pub expected_updated: Option<String>,
}

pub struct UpdateV {
    pub title: Option<Seq<char>>,
    pub body: Option<Seq<char>>,
    pub priority: Option<Seq<char>>,
    pub status: Option<Seq<char>>,
    pub tags: Option<Seq<Seq<char>>>,
    pub expected_updated: Option<Seq<char>>,
}

impl View for TodoUpdate {
    type V = UpdateV;

    open spec fn view(&self) -> UpdateV {
        UpdateV {
            title: self.title.deep_view(),
            body: self.body.deep_view(),
            priority: self.priority.deep_view(),
            status: self.status.deep_view(),
            tags: self.tags.deep_view(),
            expected_updated: self.expected_updated.deep_view(),
        }
    }
}

pub open spec fn has_todo(ts: Seq<TodoV>, id: Seq<char>) -> bool {
    exists|i: int| 0 <= i < ts.len() && #[trigger] ts[i].id == id
}

/// `i` is the position of the first todo with the given id.
pub open spec fn todo_at(ts: Seq<TodoV>, id: Seq<char>, i: int) -> bool {
    &&& 0 <= i < ts.len()
    &&& ts[i].id == id
    &&& forall|j: int| 0 <= j < i ==> #[trigger] ts[j].id != id
}

/// The position of the first todo with the given id (meaningful when there
/// is one).
pub open spec fn first_todo(ts: Seq<TodoV>, id: Seq<char>) -> int {
    choose|i: int| todo_at(ts, id, i)
}

pub proof fn lemma_first_todo(ts: Seq<TodoV>, id: Seq<char>, i: int)
    requires
        todo_at(ts, id, i),
    ensures
        first_todo(ts, id) == i,
        has_todo(ts, id),
{
    let k = first_todo(ts, id);
    assert(todo_at(ts, id, k));
    if k < i {
        assert(ts[k].id != id);
    }
    if k > i {
        assert(ts[i].id != id);
    }
}

fn find_todo(ts: &Vec<Todo>, id: &str) -> (r: Option<usize>)
    ensures
        r matches Some(i) ==> todo_at(views(ts@), id@, i as int) && first_todo(views(ts@), id@) == i
            && has_todo(views(ts@), id@),
        r is None ==> !has_todo(views(ts@), id@),
{
    let idv = to_chars(id);
    for i in 0..ts.len()
        invariant
            idv@ == id@,
            forall|j: int| 0 <= j < i ==> #[trigger] views(ts@)[j].id != id@,
    {
        if eq_chars(&to_chars(ts[i].id.as_str()), &idv) {
            proof {
                lemma_first_todo(views(ts@), id@, i as int);
            }
            return Some(i);
        }
    }
    None
}

/// `t` with the stamp fields of `like`.
pub open spec fn restamp(t: TodoV, like: TodoV) -> TodoV {
    TodoV { updated: like.updated, updated_by: like.updated_by, ..t }
}

/// A status as words: "in_progress" reads "in progress".
pub open spec fn status_words(s: Seq<char>) -> Seq<char> {
    s.map_values(|c: char| if c == '_' { ' ' } else { c })
}

fn status_words_exec(s: &str) -> (r: String)
    ensures
        r@ == status_words(s@),
{
    let v = to_chars(s);
    let mut out: Vec<char> = Vec::new();
    for i in 0..v.len()
        invariant
            out@ == status_words(v@.take(i as int)),
    {
        out.push(if v[i] == '_' { ' ' } else { v[i] });
        assert(out@ =~= status_words(v@.take(i + 1)));
    }
    assert(v@.take(v.len() as int) =~= v@);
    from_chars(&out)
}

/// The event logged when a todo's status changes. A plain status change
/// names the statuses in words ("in progress"); a reopening names them as
/// stored.
pub open spec fn transition_text(from: Seq<char>, to: Seq<char>) -> Seq<char> {
    if to == "completed"@ {
        "marked done"@
    } else if from == "completed"@ {
        "reopened ("@ + from + " → "@ + to + ")"@
    } else {
        "status: "@ + status_words(from) + " → "@ + status_words(to)
    }
}

fn transition_message(from: &str, to: &str) -> (r: String)
    ensures
        r@ == transition_text(from@, to@),
{
    let f = status_words_exec(from);
    let t = status_words_exec(to);
    if is_text(to, "completed") {
        from_chars(&to_chars("marked done"))
    } else if is_text(from, "completed") {
        cat(cat(cat(cat("reopened (", from).as_str(), " → ").as_str(), to).as_str(), ")")
    } else {
        cat(cat(cat("status: ", f.as_str()).as_str(), " → ").as_str(), t.as_str())
    }
}

/// `b` is `a` with only its todos changed.
pub open spec fn same_but_todos(a: ProjectV, b: ProjectV) -> bool {
    &&& b.path == a.path
    &&& b.name == a.name
    &&& b.dir == a.dir
    &&& b.actor == a.actor
    &&& b.comments == a.comments
    &&& b.pads == a.pads
}

/// The todo at `i` was replaced by `t`, stamped now by the actor; a change
/// of status was logged as an event on the todo.
pub open spec fn committed(old: ProjectV, new: ProjectV, id: Seq<char>, i: int, t: TodoV) -> bool {
    &&& new.todos == old.todos.update(i, t)
    &&& is_stamp(t.updated)
    &&& t.updated_by == old.actor
    &&& new.path == old.path
    &&& new.name == old.name
    &&& new.dir == old.dir
    &&& new.actor == old.actor
    &&& new.pads == old.pads
    &&& if t.status == old.todos[i].status {
        new.comments == old.comments
    } else {
        &&& new.comments.len() == old.comments.len() + 1
        &&& new.comments.drop_last() == old.comments
        &&& made_comment(new.comments.last(), old.actor, id, ""@, "event"@, transition_text(old.todos[i].status, t.status))
    }
}

/// Why an edit of a found todo is turned down, if it is.
pub enum Refusal {
    Fine,
    Concurrent,
    Other(Seq<char>),
}

pub open spec fn refused_as(r: Result<Todo>, why: Refusal) -> bool {
    match why {
        Refusal::Fine => false,
        Refusal::Concurrent => r matches Err(Error::ConcurrentEdit),
        Refusal::Other(m) => r matches Err(Error::Other(e)) && e@ == m,
    }
}

pub open spec fn never_refused() -> spec_fn(TodoV) -> Refusal {
    |t: TodoV| Refusal::Fine
}

/// What an edit of todo `id` does: NotFound when there is no such todo;
/// otherwise the first todo with that id is checked and either the edit is
/// refused with nothing changed, or the todo becomes one related to the old
/// one by `ok` and is committed.
pub open spec fn edit_outcome(
    old: ProjectV,
    new: ProjectV,
    id: Seq<char>,
    r: Result<Todo>,
    check: spec_fn(TodoV) -> Refusal,
    ok: spec_fn(TodoV, TodoV) -> bool,
) -> bool {
    if !has_todo(old.todos, id) {
        r matches Err(Error::NotFound) && new == old
    } else {
        let i = first_todo(old.todos, id);
        if !(check(old.todos[i]) is Fine) {
            refused_as(r, check(old.todos[i])) && new == old
        } else {
            r matches Ok(t) && ok(old.todos[i], t@) && committed(old, new, id, i, t@)
        }
    }
}

/// A new todo made by `actor` with the given fields.
pub open spec fn fresh_todo(t: TodoV, title: Seq<char>, body: Seq<char>, priority: Seq<char>, tags: Seq<Seq<char>>, actor: Seq<char>) -> bool {
    &&& is_id("t_"@, t.id)
    &&& t.title == title
    &&& t.body == body
    &&& t.status == "open"@
    &&& t.priority == priority
    &&& t.tags == tags
    &&& t.blockers.len() == 0
    &&& t.lock is None
    &&& is_stamp(t.created)
    &&& is_stamp(t.updated)
    &&& t.completed is None
    &&& t.created_by == actor
    &&& t.updated_by == actor
    &&& t.github is None
}

/// An empty priority means medium; anything else must normalize.
pub open spec fn priority_ok(p: Seq<char>) -> bool {
    p.len() == 0 || is_priority(priority_key(p))
}

pub open spec fn create_priority(p: Seq<char>) -> Seq<char> {
    if p.len() == 0 {
        "medium"@
    } else {
        priority_key(p)
    }
}

pub open spec fn other_todo(id: Seq<char>) -> spec_fn(TodoV) -> bool {
    |t: TodoV| t.id != id
}

pub open spec fn other_text(x: Seq<char>) -> spec_fn(Seq<char>) -> bool {
    |y: Seq<char>| y != x
}

/// `t` no longer blocked on `id`.
pub open spec fn unblocked(t: TodoV, id: Seq<char>) -> TodoV {
    TodoV { blockers: keep(t.blockers, other_text(id)), ..t }
}

/// The todos left after deleting `id`: every todo with that id goes, and the
/// id is struck from every remaining todo's blockers.
pub open spec fn after_delete(ts: Seq<TodoV>, id: Seq<char>) -> Seq<TodoV> {
    keep(ts, other_todo(id)).map_values(|t: TodoV| unblocked(t, id))
}

/// The strings of `v` other than `x`, in order.
pub fn strings_without(v: &Vec<String>, x: &str) -> (r: Vec<String>)
    ensures
        r.deep_view() == keep(v.deep_view(), other_text(x@)),
{
    let xs = to_chars(x);
    let ghost p = other_text(x@);
    let mut r: Vec<String> = Vec::new();
    for i in 0..v.len()
        invariant
            xs@ == x@,
            p == other_text(x@),
            r.deep_view() == keep(v.deep_view().take(i as int), p),
    {
        proof {
            lemma_keep_step(v.deep_view(), i as int, p);
        }
        if !eq_chars(&to_chars(v[i].as_str()), &xs) {
            let ghost before = r.deep_view();
            let c = dup(&v[i]);
            r.push(c);
            assert(r.deep_view() =~= before.push(c@));
        }
    }
    proof {
        lemma_keep_all(v.deep_view(), p);
    }
    r
}

/// `v` with `x` appended unless it is already there.
pub open spec fn with_unique(v: Seq<Seq<char>>, x: Seq<char>) -> Seq<Seq<char>> {
    if v.contains(x) {
        v
    } else {
        v.push(x)
    }
}

fn push_unique(v: &mut Vec<String>, x: &str)
    ensures
        final(v).deep_view() == with_unique(old(v).deep_view(), x@),
{
    if !has_string(v, x) {
        let ghost before = v.deep_view();
        let s = from_chars(&to_chars(x));
        v.push(s);
        assert(v.deep_view() =~= before.push(x@));
    }
}

/// Does `t` pass every test the filter sets?
pub open spec fn passes(t: TodoV, all: Seq<TodoV>, f: FilterV) -> bool {
    &&& (f.status.len() == 0 || t.status == f.status)
    &&& match f.completed {
        Some(w) => (t.status == "completed"@) == w,
        None => true,
    }
    &&& (f.priority.len() == 0 || t.priority == f.priority)
    &&& match f.is_blocked {
        Some(w) => is_blocked_by(t, all) == w,
        None => true,
    }
    &&& (f.query.len() == 0 || contains_seq(lower(t.title + " "@ + t.body), lower(f.query)))
    &&& (f.tags.len() == 0 || has_all(t.tags, f.tags))
}

pub open spec fn passes_fn(all: Seq<TodoV>, f: FilterV) -> spec_fn(TodoV) -> bool {
    |t: TodoV| passes(t, all, f)
}

/// What `list_todos` returns: the todos that pass the filter, sorted by its
/// key, then paged.
pub open spec fn listed(all: Seq<TodoV>, f: FilterV) -> Seq<TodoV> {
    paged(sorted_todos(keep(all, passes_fn(all, f)), f.sort), f.offset, f.limit)
}

fn passes_exec(t: &Todo, all: &Vec<Todo>, f: &TodoFilter) -> (b: bool)
    ensures
        b == passes(t@, views(all@), f@),
{
    if !is_blank(f.status.as_str()) && !is_text(t.status.as_str(), f.status.as_str()) {
        return false;
    }
    match f.completed {
        Some(want) => {
            if is_text(t.status.as_str(), "completed") != want {
                return false;
            }
        },
        None => {},
    }
    if !is_blank(f.priority.as_str()) && !is_text(t.priority.as_str(), f.priority.as_str()) {
        return false;
    }
    match f.is_blocked {
        Some(want) => {
            if blocked_against(t, all) != want {
                return false;
            }
        },
        None => {},
    }
    if !is_blank(f.query.as_str()) {
        let hay = to_lower(cat(cat(t.title.as_str(), " ").as_str(), t.body.as_str()).as_str());
        let needle = to_lower(f.query.as_str());
        if !contains_chars(&to_chars(hay.as_str()), &to_chars(needle.as_str())) {
            return false;
        }
    }
    if f.tags.len() > 0 && !has_all_tags(&t.tags, &f.tags) {
        return false;
    }
    true
}

/// Every tag some todo carries.
pub open spec fn tagged(ts: Seq<TodoV>, y: Seq<char>) -> bool {
    exists|i: int| 0 <= i < ts.len() && #[trigger] ts[i].tags.contains(y)
}

impl Project {
    /// Stamps `t` (now, by the actor), stores it at `i`, and logs a status
    /// change as an event on `id`.
    fn commit(&mut self, i: usize, t: Todo, id: &str) -> (r: Todo)
        requires
            i < old(self).todos.len(),
        ensures
            r@ == restamp(t@, r@),
            committed(old(self)@, final(self)@, id@, i as int, r@),
    {
        let mut t = t;
        t.updated = now();
        t.updated_by = dup(&self.actor);
        let from = dup(&self.todos[i].status);
        let to = dup(&t.status);
        let out = t.copy();
        let ghost before = views(self.todos@);
        self.todos.set(i, t);
        assert(views(self.todos@) =~= before.update(i as int, out@));
        if !is_text(to.as_str(), from.as_str()) {
            let text = transition_message(from.as_str(), to.as_str());
            let ghost mid = self@;
            let res = self.add_comment_event(id, text.as_str());
            match res {
                Ok(c) => {
                    assert(self@.comments.drop_last() =~= mid.comments);
                },
                Err(_) => {},
            }
        }
        out
    }

    pub fn create_todo(&mut self, title: &str, body: &str, priority: &str, tags: Vec<String>) -> (r: Result<Todo>)
        ensures
            !priority_ok(priority@) ==> (r matches Err(Error::Other(m)) && m@ == priority_error(priority@)
                && final(self)@ == old(self)@),
            priority_ok(priority@) ==> (r matches Ok(t) && fresh_todo(
                t@,
                title@,
                body@,
                create_priority(priority@),
                tags.deep_view(),
                old(self)@.actor,
            ) && final(self)@.todos == old(self)@.todos.push(t@)),
            same_but_todos(old(self)@, final(self)@),
    {
        let prio = if is_blank(priority) {
            from_chars(&to_chars("medium"))
        } else {
            match normalize_priority(priority) {
                Ok(p) => p,
                Err(e) => return Err(e),
            }
        };
        let id = self.fresh_id("t_");
        let td = Todo {
            id,
            title: from_chars(&to_chars(title)),
            body: from_chars(&to_chars(body)),
            status: from_chars(&to_chars("open")),
            priority: prio,
            tags,
            blockers: Vec::new(),
            lock: None,
            created: now(),
            updated: now(),
            completed: None,
            created_by: dup(&self.actor),
            updated_by: dup(&self.actor),
            github: None,
        };
        let ghost before = views(self.todos@);
        let cp = td.copy();
        self.todos.push(cp);
        assert(views(self.todos@) =~= before.push(td@));
        Ok(td)
    }

    pub fn get_todo(&self, id: &str) -> (r: Result<Todo>)
        ensures
            has_todo(self@.todos, id@) ==> (r matches Ok(t) && t@ == self@.todos[first_todo(self@.todos, id@)]),
            !has_todo(self@.todos, id@) ==> r matches Err(Error::NotFound),
    {
        match find_todo(&self.todos, id) {
            Some(i) => Ok(self.todos[i].copy()),
            None => Err(Error::NotFound),
        }
    }

    /// Deletes every todo with the id, strikes the id from the remaining
    /// todos' blockers, and drops the comments on it.
    pub fn delete_todo(&mut self, id: &str) -> (r: Result<()>)
        ensures
            !has_todo(old(self)@.todos, id@) ==> (r matches Err(Error::NotFound) && final(self)@ == old(self)@),
            has_todo(old(self)@.todos, id@) ==> (r is Ok && final(self)@.todos == after_delete(old(self)@.todos, id@)
                && final(self)@.comments == keep(old(self)@.comments, off_target(norm_target(id@)))),
            final(self)@.path == old(self)@.path,
            final(self)@.name == old(self)@.name,
            final(self)@.dir == old(self)@.dir,
            final(self)@.actor == old(self)@.actor,
            final(self)@.pads == old(self)@.pads,
    {
        if find_todo(&self.todos, id).is_none() {
            return Err(Error::NotFound);
        }
        let idv = to_chars(id);
        let ghost ts = views(self.todos@);
        let ghost p = other_todo(id@);
        let ghost f = |t: TodoV| unblocked(t, id@);
        let mut out: Vec<Todo> = Vec::new();
        for i in 0..self.todos.len()
            invariant
                idv@ == id@,
                ts == views(self.todos@),
                p == other_todo(id@),
                f == (|t: TodoV| unblocked(t, id@)),
                views(out@) == keep(ts.take(i as int), p).map_values(f),
        {
            proof {
                lemma_keep_step(ts, i as int, p);
            }
            if !eq_chars(&to_chars(self.todos[i].id.as_str()), &idv) {
                let ghost before = views(out@);
                let mut t = self.todos[i].copy();
                t.blockers = strings_without(&self.todos[i].blockers, id);
                assert(t@ == unblocked(ts[i as int], id@));
                out.push(t);
                assert(views(out@) =~= before.push(t@));
                assert(keep(ts.take(i as int), p).push(ts[i as int]).map_values(f) =~= keep(ts.take(i as int), p).map_values(f).push(f(ts[i as int])));
            }
        }
        proof {
            lemma_keep_all(ts, p);
        }
        self.todos = out;
        let _ = self.delete_comments_for_target(id);
        Ok(())
    }

    fn set_complete(&mut self, id: &str, complete: bool, release_lock: bool) -> (r: Result<Todo>)
        ensures
            edit_outcome(old(self)@, final(self)@, id@, r, never_refused(), completed_as(complete, release_lock)),
    {
        let i = match find_todo(&self.todos, id) {
            Some(i) => i,
            None => return Err(Error::NotFound),
        };
        let mut t = self.todos[i].copy();
        if complete {
            t.status = from_chars(&to_chars("completed"));
            t.completed = Some(now());
        } else {
            t.status = from_chars(&to_chars("open"));
            t.completed = None;
        }
        if release_lock {
            t.lock = None;
        }
        let r = self.commit(i, t, id);
        Ok(r)
    }

    pub fn complete_todo(&mut self, id: &str, release_lock: bool) -> (r: Result<Todo>)
        ensures
            edit_outcome(old(self)@, final(self)@, id@, r, never_refused(), completed_as(true, release_lock)),
    {
        self.set_complete(id, true, release_lock)
    }

    pub fn incomplete_todo(&mut self, id: &str, release_lock: bool) -> (r: Result<Todo>)
        ensures
            edit_outcome(old(self)@, final(self)@, id@, r, never_refused(), completed_as(false, release_lock)),
    {
        self.set_complete(id, false, release_lock)
    }

    /// Is some blocker of `t` not a completed todo of this store?
    pub fn is_blocked(&self, t: &Todo) -> (b: bool)
        ensures
            b == is_blocked_by(t@, self@.todos),
    {
        if t.blockers.len() == 0 {
            return false;
        }
        blocked_against(t, &self.todos)
    }

    pub fn list_todos(&self, f: TodoFilter) -> (r: Result<Vec<Todo>>)
        ensures
            r matches Ok(v) && views(v@) == listed(self@.todos, f@),
    {
        let ghost all = views(self.todos@);
        let ghost p = passes_fn(all, f@);
        let mut out: Vec<Todo> = Vec::new();
        for i in 0..self.todos.len()
            invariant
                all == views(self.todos@),
                p == passes_fn(all, f@),
                views(out@) == keep(all.take(i as int), p),
        {
            proof {
                lemma_keep_step(all, i as int, p);
            }
            if passes_exec(&self.todos[i], &self.todos, &f) {
                let ghost before = views(out@);
                let c = self.todos[i].copy();
                out.push(c);
                assert(views(out@) =~= before.push(c@));
            }
        }
        proof {
            lemma_keep_all(all, p);
        }
        let sorted = sort_todos(out, f.sort.as_str());
        Ok(page(sorted, f.offset, f.limit))
    }

    pub fn update_todo(&mut self, id: &str, u: TodoUpdate) -> (r: Result<Todo>)
        ensures
            edit_outcome(old(self)@, final(self)@, id@, r, update_check(u@), updated_with(u@)),
    {
        let i = match find_todo(&self.todos, id) {
            Some(i) => i,
            None => return Err(Error::NotFound),
        };
        let mut t = self.todos[i].copy();
        match &u.expected_updated {
            Some(exp) => {
                if !is_text(t.updated.as_str(), exp.as_str()) {
                    return Err(Error::ConcurrentEdit);
                }
            },
            None => {},
        }
        match u.title {
            Some(v) => {
                t.title = v;
            },
            None => {},
        }
        match u.body {
            Some(v) => {
                t.body = v;
            },
            None => {},
        }
        match &u.priority {
            Some(v) => {
                match normalize_priority(v.as_str()) {
                    Ok(p) => {
                        t.priority = p;
                    },
                    Err(e) => return Err(e),
                }
            },
            None => {},
        }
        match &u.status {
            Some(v) => {
                match normalize_status(v.as_str()) {
                    Ok(s) => {
                        t.status = s;
                    },
                    Err(e) => return Err(e),
                }
            },
            None => {},
        }
        match u.tags {
            Some(v) => {
                t.tags = v;
            },
            None => {},
        }
        Ok(self.commit(i, t, id))
    }

    pub fn add_todo_tag(&mut self, id: &str, tag: &str) -> (r: Result<Todo>)
        ensures
            edit_outcome(old(self)@, final(self)@, id@, r, never_refused(), tag_added(tag@)),
    {
        let i = match find_todo(&self.todos, id) {
            Some(i) => i,
            None => return Err(Error::NotFound),
        };
        let mut t = self.todos[i].copy();
        push_unique(&mut t.tags, tag);
        Ok(self.commit(i, t, id))
    }

    pub fn remove_todo_tag(&mut self, id: &str, tag: &str) -> (r: Result<Todo>)
        ensures
            edit_outcome(old(self)@, final(self)@, id@, r, never_refused(), tag_removed(tag@)),
    {
        let i = match find_todo(&self.todos, id) {
            Some(i) => i,
            None => return Err(Error::NotFound),
        };
        let mut t = self.todos[i].copy();
        t.tags = strings_without(&self.todos[i].tags, tag);
        Ok(self.commit(i, t, id))
    }

    pub fn set_blockers(&mut self, id: &str, blockers: Vec<String>) -> (r: Result<Todo>)
        ensures
            edit_outcome(old(self)@, final(self)@, id@, r, never_refused(), blockers_set(blockers.deep_view())),
    {
        let i = match find_todo(&self.todos, id) {
            Some(i) => i,
            None => return Err(Error::NotFound),
        };
        let mut t = self.todos[i].copy();
        t.blockers = blockers;
        Ok(self.commit(i, t, id))
    }

    pub fn add_blocker(&mut self, id: &str, blocker: &str) -> (r: Result<Todo>)
        ensures
            edit_outcome(old(self)@, final(self)@, id@, r, never_refused(), blocker_added(blocker@)),
    {
        let i = match find_todo(&self.todos, id) {
            Some(i) => i,
            None => return Err(Error::NotFound),
        };
        let mut t = self.todos[i].copy();
        push_unique(&mut t.blockers, blocker);
        Ok(self.commit(i, t, id))
    }

    pub fn remove_blocker(&mut self, id: &str, blocker: &str) -> (r: Result<Todo>)
        ensures
            edit_outcome(old(self)@, final(self)@, id@, r, never_refused(), blocker_removed(blocker@)),
    {
        let i = match find_todo(&self.todos, id) {
            Some(i) => i,
            None => return Err(Error::NotFound),
        };
        let mut t = self.todos[i].copy();
        t.blockers = strings_without(&self.todos[i].blockers, blocker);
        Ok(self.commit(i, t, id))
    }

    /// Sets the advisory lock; an existing lock is overwritten (stealing is
    /// deliberate).
    pub fn lock_todo(&mut self, id: &str, owner: &str, pid: i64) -> (r: Result<Todo>)
        ensures
            edit_outcome(old(self)@, final(self)@, id@, r, never_refused(), locked_by(owner@, pid as int)),
    {
        let i = match find_todo(&self.todos, id) {
            Some(i) => i,
            None => return Err(Error::NotFound),
        };
        let mut t = self.todos[i].copy();
        t.lock = Some(Lock { owner: from_chars(&to_chars(owner)), pid, at: now() });
        Ok(self.commit(i, t, id))
    }

    /// Releases the lock; refused when someone else holds it.
    pub fn unlock_todo(&mut self, id: &str, owner: &str) -> (r: Result<Todo>)
        ensures
            edit_outcome(old(self)@, final(self)@, id@, r, unlock_check(owner@), unlocked()),
    {
        let i = match find_todo(&self.todos, id) {
            Some(i) => i,
            None => return Err(Error::NotFound),
        };
        let mut t = self.todos[i].copy();
        match &t.lock {
            Some(l) => {
                if !is_text(l.owner.as_str(), owner) {
                    return Err(Error::Other(cat("lock owned by ", l.owner.as_str())));
                }
            },
            None => {},
        }
        t.lock = None;
        Ok(self.commit(i, t, id))
    }

    /// The opt-in sync toggle. `on` links (or un-pauses) the todo, `off`
    /// pauses it keeping repo and number. A fresh link needs the repository
    /// named by the project's origin remote URL.
    pub fn set_github(&mut self, id: &str, on: bool, origin_url: Option<String>) -> (r: Result<Todo>)
        ensures
            edit_outcome(
                old(self)@,
                final(self)@,
                id@,
                r,
                github_check(on, origin_repo(origin_url.deep_view())),
                github_toggled(on, origin_repo(origin_url.deep_view())),
            ),
    {
        let i = match find_todo(&self.todos, id) {
            Some(i) => i,
            None => return Err(Error::NotFound),
        };
        let mut t = self.todos[i].copy();
        let origin: Option<String> = if on {
            match &origin_url {
                Some(u) => parse_repo(u.as_str()),
                None => None,
            }
        } else {
            None
        };
        match &mut t.github {
            Some(link) => {
                link.paused = !on;
            },
            None => {
                if on {
                    match origin {
                        Some(repo) => {
                            t.github = Some(GithubLink {
                                repo,
                                number: 0,
                                last_pushed: String::new(),
                                last_comment_pull: String::new(),
                                paused: false,
                            });
                        },
                        None => {
                            return Err(Error::Other(from_chars(&to_chars("no git origin remote; cannot link to GitHub"))));
                        },
                    }
                }
            },
        }
        Ok(self.commit(i, t, id))
    }

    /// Stores a sync link's fields without stamping the todo or logging an
    /// event; a pause already stored on the todo is kept.
    pub fn update_github_link(&mut self, id: &str, link: GithubLink) -> (r: Result<()>)
        ensures
            !has_todo(old(self)@.todos, id@) ==> (r matches Err(Error::NotFound) && final(self)@ == old(self)@),
            has_todo(old(self)@.todos, id@) ==> (r is Ok && final(self)@.todos == old(self)@.todos.update(
                first_todo(old(self)@.todos, id@),
                linked_todo(old(self)@.todos[first_todo(old(self)@.todos, id@)], link@),
            )),
            same_but_todos(old(self)@, final(self)@),
    {
        let i = match find_todo(&self.todos, id) {
            Some(i) => i,
            None => return Err(Error::NotFound),
        };
        let mut t = self.todos[i].copy();
        let mut link = link;
        match &t.github {
            Some(existing) => {
                link.paused = existing.paused;
            },
            None => {},
        }
        t.github = Some(link);
        let ghost before = views(self.todos@);
        let ghost tv = t@;
        self.todos.set(i, t);
        assert(views(self.todos@) =~= before.update(i as int, tv));
        Ok(())
    }

    /// Every tag on any todo, ascending, each once.
    pub fn todo_tags(&self) -> (r: Result<Vec<String>>)
        ensures
            r matches Ok(v) && ascending(v.deep_view())
                && forall|y: Seq<char>| v.deep_view().contains(y) <==> tagged(self@.todos, y),
    {
        let ghost ts = views(self.todos@);
        let mut out: Vec<String> = Vec::new();
        for i in 0..self.todos.len()
            invariant
                ts == views(self.todos@),
                ascending(out.deep_view()),
                forall|y: Seq<char>| out.deep_view().contains(y) <==> tagged(ts.take(i as int), y),
        {
            let tags = &self.todos[i].tags;
            let ghost mid = out.deep_view();
            assert(tags.deep_view().take(0) =~= Seq::<Seq<char>>::empty());
            let mut k: usize = 0;
            while k < tags.len()
                invariant
                    0 <= k <= tags.len(),
                    ts == views(self.todos@),
                    i < self.todos.len(),
                    tags.deep_view() == ts[i as int].tags,
                    ascending(out.deep_view()),
                    forall|y: Seq<char>| mid.contains(y) <==> tagged(ts.take(i as int), y),
                    forall|y: Seq<char>| out.deep_view().contains(y) <==> (mid.contains(y) || tags.deep_view().take(k as int).contains(y)),
                decreases tags.len() - k,
            {
                let ghost o1 = out.deep_view();
                assert(forall|y: Seq<char>| out.deep_view().contains(y) <==> (mid.contains(y) || tags.deep_view().take(k as int).contains(y)));
                insert_sorted_unique(&mut out, tags[k].as_str());
                let ghost xv = tags.deep_view()[k as int];
                assert(tags[k as int]@ == xv);
                assert(forall|y: Seq<char>| out.deep_view().contains(y) <==> (o1.contains(y) || y == xv));
                assert(forall|y: Seq<char>| o1.contains(y) <==> (mid.contains(y) || tags.deep_view().take(k as int).contains(y)));
                assert forall|y: Seq<char>| out.deep_view().contains(y) <==> (mid.contains(y) || tags.deep_view().take(k + 1).contains(y)) by {
                    lemma_take_contains(tags.deep_view(), k as int, y);
                }
                k += 1;
            }
            assert(k == tags.len());
            assert(forall|y: Seq<char>| out.deep_view().contains(y) <==> (mid.contains(y) || tags.deep_view().take(k as int).contains(y)));
            assert(tags.deep_view().take(k as int) =~= tags.deep_view());
            assert(forall|y: Seq<char>| mid.contains(y) <==> tagged(ts.take(i as int), y));
            assert forall|y: Seq<char>| out.deep_view().contains(y) <==> tagged(ts.take(i + 1), y) by {
                let t1 = ts.take(i + 1);
                assert(out.deep_view().contains(y) <==> (mid.contains(y) || tags.deep_view().take(k as int).contains(y)));
                assert(mid.contains(y) <==> tagged(ts.take(i as int), y));
                if tagged(t1, y) {
                    let j = choose|j: int| 0 <= j < t1.len() && #[trigger] t1[j].tags.contains(y);
                    assert(t1[j] == ts[j]);
                    if j < i {
                        assert(ts.take(i as int)[j].tags.contains(y));
                    }
                }
                if tagged(ts.take(i as int), y) {
                    let j = choose|j: int| 0 <= j < i && #[trigger] ts.take(i as int)[j].tags.contains(y);
                    assert(t1[j].tags.contains(y));
                }
                if ts[i as int].tags.contains(y) {
                    assert(t1[i as int].tags.contains(y));
                }
            }
        }
        assert(ts.take(self.todos.len() as int) =~= ts);
        Ok(out)
    }
}

pub open spec fn completed_as(complete: bool, release_lock: bool) -> spec_fn(TodoV, TodoV) -> bool {
    |a: TodoV, b: TodoV|
        b == restamp(
            TodoV {
                status: if complete { "completed"@ } else { "open"@ },
                completed: if complete { b.completed } else { None },
                lock: if release_lock { None } else { a.lock },
                ..a
            },
            b,
        ) && (complete ==> (b.completed matches Some(c) && is_stamp(c)))
}

pub open spec fn update_check(u: UpdateV) -> spec_fn(TodoV) -> Refusal {
    |t: TodoV|
        if u.expected_updated is Some && t.updated != u.expected_updated->0 {
            Refusal::Concurrent
        } else if u.priority is Some && !is_priority(priority_key(u.priority->0)) {
            Refusal::Other(priority_error(u.priority->0))
        } else if u.status is Some && !is_status(status_key(u.status->0)) {
            Refusal::Other(status_error(u.status->0))
        } else {
            Refusal::Fine
        }
}

pub open spec fn or_keep<V>(o: Option<V>, v: V) -> V {
    match o {
        Some(x) => x,
        None => v,
    }
}

pub open spec fn updated_with(u: UpdateV) -> spec_fn(TodoV, TodoV) -> bool {
    |a: TodoV, b: TodoV|
        b == restamp(
            TodoV {
                title: or_keep(u.title, a.title),
                body: or_keep(u.body, a.body),
                priority: match u.priority {
                    Some(p) => priority_key(p),
                    None => a.priority,
                },
                status: match u.status {
                    Some(s) => status_key(s),
                    None => a.status,
                },
                tags: or_keep(u.tags, a.tags),
                ..a
            },
            b,
        )
}

pub open spec fn tag_added(tag: Seq<char>) -> spec_fn(TodoV, TodoV) -> bool {
    |a: TodoV, b: TodoV| b == restamp(TodoV { tags: with_unique(a.tags, tag), ..a }, b)
}

pub open spec fn tag_removed(tag: Seq<char>) -> spec_fn(TodoV, TodoV) -> bool {
    |a: TodoV, b: TodoV| b == restamp(TodoV { tags: keep(a.tags, other_text(tag)), ..a }, b)
}

pub open spec fn blockers_set(bs: Seq<Seq<char>>) -> spec_fn(TodoV, TodoV) -> bool {
    |a: TodoV, b: TodoV| b == restamp(TodoV { blockers: bs, ..a }, b)
}

pub open spec fn blocker_added(x: Seq<char>) -> spec_fn(TodoV, TodoV) -> bool {
    |a: TodoV, b: TodoV| b == restamp(TodoV { blockers: with_unique(a.blockers, x), ..a }, b)
}

pub open spec fn blocker_removed(x: Seq<char>) -> spec_fn(TodoV, TodoV) -> bool {
    |a: TodoV, b: TodoV| b == restamp(TodoV { blockers: keep(a.blockers, other_text(x)), ..a }, b)
}

pub open spec fn locked_by(owner: Seq<char>, pid: int) -> spec_fn(TodoV, TodoV) -> bool {
    |a: TodoV, b: TodoV|
        (b.lock matches Some(l) && l.owner == owner && l.pid == pid && is_stamp(l.at))
            && b == restamp(TodoV { lock: b.lock, ..a }, b)
}

pub open spec fn unlock_check(owner: Seq<char>) -> spec_fn(TodoV) -> Refusal {
    |t: TodoV|
        if t.lock is Some && t.lock->0.owner != owner {
            Refusal::Other("lock owned by "@ + t.lock->0.owner)
        } else {
            Refusal::Fine
        }
}

pub open spec fn unlocked() -> spec_fn(TodoV, TodoV) -> bool {
    |a: TodoV, b: TodoV| b == restamp(TodoV { lock: None, ..a }, b)
}

/// The repository an origin remote URL names, if any.
pub open spec fn origin_repo(url: Option<Seq<char>>) -> Option<Seq<char>> {
    match url {
        Some(u) => repo_of(u),
        None => None,
    }
}

pub open spec fn github_check(on: bool, repo: Option<Seq<char>>) -> spec_fn(TodoV) -> Refusal {
    |t: TodoV|
        if on && t.github is None && repo is None {
            Refusal::Other("no git origin remote; cannot link to GitHub"@)
        } else {
            Refusal::Fine
        }
}

pub open spec fn github_toggled(on: bool, repo: Option<Seq<char>>) -> spec_fn(TodoV, TodoV) -> bool {
    |a: TodoV, b: TodoV|
        b == restamp(
            TodoV {
                github: match a.github {
                    Some(l) => Some(LinkV { paused: !on, ..l }),
                    None => if on {
                        Some(
                            LinkV {
                                repo: repo->0,
                                number: 0,
                                last_pushed: Seq::empty(),
                                last_comment_pull: Seq::empty(),
                                paused: false,
                            },
                        )
                    } else {
                        None
                    },
                },
                ..a
            },
            b,
        )
}

/// The todo with a sync link stored; a pause already on the todo is kept.
pub open spec fn linked_todo(t: TodoV, link: LinkV) -> TodoV {
    TodoV {
        github: Some(
            match t.github {
                Some(e) => LinkV { paused: e.paused, ..link },
                None => link,
            },
        ),
        ..t
    }
}

} // verus!
