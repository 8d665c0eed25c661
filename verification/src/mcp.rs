//! The agent tool surface: the arguments a tool call carries, and how each
//! named tool becomes exactly one store operation. Serving the calls (JSON-RPC
//! over stdio) and resolving the project happen around this.
use vstd::prelude::*;
use crate::comments::{norm_target, off_target};
use crate::errors::{Error, Result};
use crate::order::{ascending, keep, views};
use crate::project::{actor_of, join_path, Project, ProjectV};
use crate::scratchpads::{
    appended_fn, body_set, cleared_fn, edit_check, edited_fn, exported, first_h1, first_pad, found_in, fresh_pad,
    has_pad, match_view, pad_never_refused, pad_outcome, pad_tagged, pad_updated, pads_listed, read_view,
    revision_room, same_but_pads, section_appended_fn, section_check, status_set, tail_of, text_room, title_set,
    EditTarget, Match, PadV, Scratchpad,
};
use crate::text::{cat, dup, from_chars, has_string, is_blank, is_text, to_chars};
use crate::todos::{
    after_delete, blocker_added, blocker_removed, blockers_set, completed_as, create_priority, edit_outcome,
    first_todo, fresh_todo, has_todo, listed, locked_by, never_refused, priority_error, priority_ok, same_but_todos,
    tag_added, tag_removed, tagged, unlock_check, unlocked, update_check, updated_with, FilterV, Todo, TodoFilter,
    TodoUpdate, UpdateV,
};

verus! {

/// Every parameter any tool takes; a tool reads the ones it needs and an
/// omitted one keeps its default. `tags` and the other options tell an
/// omitted value from an empty one.
#[derive(Debug, Clone, Default)]
pub struct Args {
    pub project: String,
    pub id: String,
    pub title: String,
    pub body: String,
    pub priority: String,
    pub status: String,
    pub tags: Option<Vec<String>>,
    pub tag: String,
    pub blocker: String,
    pub blockers: Vec<String>,
    pub query: String,
    pub sort: String,
    pub completed: Option<bool>,
    pub is_blocked: Option<bool>,
    pub offset: i64,
    pub limit: i64,
    pub name: String,
    pub content: String,
    pub mode: String,
    pub section_heading: String,
    pub heading: String,
    pub scope: String,
    pub case_sensitive: bool,
    pub context_lines: i64,
    pub lines: Option<i64>,
    pub newline: bool,
    pub include_archived: bool,
    pub expected_revision: Option<i64>,
    pub target: EditTarget,
    pub path: String,
    pub owner: String,
    pub pid: i64,
}

/// An omitted expected revision means -1: the store then skips its check.
pub open spec fn rev_of(a: Args) -> int {
    match a.expected_revision {
        Some(r) => r as int,
        None => -1,
    }
}

/// The tags given, or none.
pub open spec fn tags_of(a: Args) -> Seq<Seq<char>> {
    match a.tags.deep_view() {
        Some(t) => t,
        None => Seq::empty(),
    }
}

impl Args {
    pub fn rev(&self) -> (r: i64)
        ensures
            r == rev_of(*self),
    {
        match self.expected_revision {
            Some(r) => r,
            None => -1,
        }
    }

    pub fn tags(&self) -> (r: Vec<String>)
        ensures
            r.deep_view() == tags_of(*self),
    {
        match &self.tags {
            Some(t) => crate::text::dup_all(t),
            None => Vec::new(),
        }
    }
}

pub open spec fn revision_required_text(tool: Seq<char>) -> Seq<char> {
    "expected_revision is required for "@ + tool
}

/// Refuses a revision-guarded write that omits its expected revision.
pub fn require_revision(a: &Args, tool_name: &str) -> (r: Result<()>)
    ensures
        a.expected_revision is None ==> (r matches Err(Error::Other(m)) && m@ == revision_required_text(tool_name@)),
        a.expected_revision is Some ==> r is Ok,
{
    match a.expected_revision {
        None => Err(Error::Other(cat("expected_revision is required for ", tool_name))),
        Some(_) => Ok(()),
    }
}

pub open spec fn or_default_text(s: Seq<char>, d: Seq<char>) -> Seq<char> {
    if s.len() == 0 {
        d
    } else {
        s
    }
}

/// `s`, or `d` when `s` is empty.
pub fn or_default(s: &str, d: &str) -> (r: String)
    ensures
        r@ == or_default_text(s@, d@),
{
    if is_blank(s) {
        from_chars(&to_chars(d))
    } else {
        from_chars(&to_chars(s))
    }
}

/// The lock owner named in the call, else the configured owner, else
/// "agent".
pub fn or_agent(s: &str, env_owner: Option<String>) -> (r: String)
    ensures
        r@ == (if s@.len() == 0 { actor_of(env_owner.deep_view()) } else { s@ }),
{
    if is_blank(s) {
        crate::project::default_actor(env_owner)
    } else {
        from_chars(&to_chars(s))
    }
}

pub open spec fn given(s: Seq<char>) -> Option<Seq<char>> {
    if s.len() == 0 {
        None
    } else {
        Some(s)
    }
}

/// The update a `todo_update` call asks for: an empty string leaves its
/// field unchanged, tags replace the list only when given.
pub open spec fn update_of(a: Args) -> UpdateV {
    UpdateV {
        title: given(a.title@),
        body: given(a.body@),
        priority: given(a.priority@),
        status: given(a.status@),
        tags: a.tags.deep_view(),
        expected_updated: None,
    }
}

fn given_exec(s: &String) -> (r: Option<String>)
    ensures
        r.deep_view() == given(s@),
{
    if is_blank(s.as_str()) {
        None
    } else {
        Some(dup(s))
    }
}

pub fn update_from(a: &Args) -> (u: TodoUpdate)
    ensures
        u@ == update_of(*a),
{
    TodoUpdate {
        title: given_exec(&a.title),
        body: given_exec(&a.body),
        priority: given_exec(&a.priority),
        status: given_exec(&a.status),
        tags: match &a.tags {
            Some(t) => Some(crate::text::dup_all(t)),
            None => None,
        },
        expected_updated: None,
    }
}

/// The filter a `todo_list` call asks for.
pub open spec fn filter_of(a: Args) -> FilterV {
    FilterV {
        status: a.status@,
        completed: a.completed,
        is_blocked: a.is_blocked,
        priority: a.priority@,
        query: a.query@,
        tags: tags_of(a),
        sort: a.sort@,
        offset: a.offset as int,
        limit: a.limit as int,
    }
}

fn filter_from(a: &Args) -> (f: TodoFilter)
    ensures
        f@ == filter_of(*a),
{
    TodoFilter {
        status: dup(&a.status),
        completed: a.completed,
        is_blocked: a.is_blocked,
        priority: dup(&a.priority),
        query: dup(&a.query),
        tags: a.tags(),
        sort: dup(&a.sort),
        offset: a.offset,
        limit: a.limit,
    }
}

/// `have` with each of `add` appended unless already present.
pub open spec fn with_new_tags(have: Seq<Seq<char>>, add: Seq<Seq<char>>) -> Seq<Seq<char>>
    decreases add.len(),
{
    if add.len() == 0 {
        have
    } else {
        let r = with_new_tags(have, add.drop_last());
        if r.contains(add.last()) {
            r
        } else {
            r.push(add.last())
        }
    }
}

pub fn merge_tags(have: &Vec<String>, add: &Vec<String>) -> (r: Vec<String>)
    ensures
        r.deep_view() == with_new_tags(have.deep_view(), add.deep_view()),
{
    let mut out = crate::text::dup_all(have);
    for i in 0..add.len()
        invariant
            out.deep_view() == with_new_tags(have.deep_view(), add.deep_view().take(i as int)),
    {
        proof {
            let t = add.deep_view().take(i + 1);
            assert(t.drop_last() =~= add.deep_view().take(i as int));
            assert(t.last() == add@[i as int]@);
        }
        if !has_string(&out, add[i].as_str()) {
            let ghost before = out.deep_view();
            let c = dup(&add[i]);
            out.push(c);
            assert(out.deep_view() =~= before.push(c@));
        }
    }
    assert(add.deep_view().take(add.len() as int) =~= add.deep_view());
    out
}

pub open spec fn not_in(drop: Seq<Seq<char>>) -> spec_fn(Seq<char>) -> bool {
    |t: Seq<char>| !drop.contains(t)
}

pub fn drop_tags(have: &Vec<String>, drop: &Vec<String>) -> (r: Vec<String>)
    ensures
        r.deep_view() == keep(have.deep_view(), not_in(drop.deep_view())),
{
    let ghost p = not_in(drop.deep_view());
    let mut out: Vec<String> = Vec::new();
    for i in 0..have.len()
        invariant
            p == not_in(drop.deep_view()),
            out.deep_view() == keep(have.deep_view().take(i as int), p),
    {
        proof {
            crate::order::lemma_keep_step(have.deep_view(), i as int, p);
        }
        if !has_string(drop, have[i].as_str()) {
            let ghost before = out.deep_view();
            let c = dup(&have[i]);
            out.push(c);
            assert(out.deep_view() =~= before.push(c@));
        }
    }
    proof {
        crate::order::lemma_keep_all(have.deep_view(), p);
    }
    out
}

/// What a tool call hands back.
pub enum ToolOut {
    Todo(Todo),
    Todos(Vec<Todo>),
    Tags(Vec<String>),
    Pad(Scratchpad),
    Pads(Vec<Scratchpad>),
    /// A pad and the requested view of its body.
    Read(Scratchpad, String),
    Matches(Vec<Match>),
    /// The last lines and the total line count.
    Tail(String, i64),
    Nothing,
    /// A pad's file text and the path to write it to.
    Save(String, String),
    /// The path to read a pad from.
    Load(String),
}

pub open spec fn as_todo(r: Result<ToolOut>) -> Result<Todo> {
    match r {
        Ok(ToolOut::Todo(t)) => Ok(t),
        Ok(_) => arbitrary(),
        Err(e) => Err(e),
    }
}

pub open spec fn todo_shaped(r: Result<ToolOut>) -> bool {
    r is Err || r matches Ok(ToolOut::Todo(_))
}

pub open spec fn as_pad(r: Result<ToolOut>) -> Result<Scratchpad> {
    match r {
        Ok(ToolOut::Pad(s)) => Ok(s),
        Ok(_) => arbitrary(),
        Err(e) => Err(e),
    }
}

pub open spec fn pad_shaped(r: Result<ToolOut>) -> bool {
    r is Err || r matches Ok(ToolOut::Pad(_))
}

fn wrap_todo(r: Result<Todo>) -> (o: Result<ToolOut>)
    ensures
        todo_shaped(o),
        as_todo(o) == r,
{
    match r {
        Ok(t) => Ok(ToolOut::Todo(t)),
        Err(e) => Err(e),
    }
}

fn wrap_pad(r: Result<Scratchpad>) -> (o: Result<ToolOut>)
    ensures
        pad_shaped(o),
        as_pad(o) == r,
{
    match r {
        Ok(s) => Ok(ToolOut::Pad(s)),
        Err(e) => Err(e),
    }
}

pub open spec fn is_todo_tool(n: Seq<char>) -> bool {
    ||| n == "todo_create"@
    ||| n == "todo_list"@
    ||| n == "todo_get"@
    ||| n == "todo_update"@
    ||| n == "todo_delete"@
    ||| n == "todo_complete"@
    ||| n == "todo_add_tag"@
    ||| n == "todo_remove_tag"@
    ||| n == "todo_tags_list"@
    ||| n == "todo_set_blockers"@
    ||| n == "todo_add_blocker"@
    ||| n == "todo_remove_blocker"@
    ||| n == "todo_lock"@
    ||| n == "todo_unlock"@
    ||| n == "todo_transfer"@
}

pub open spec fn is_pad_tool(n: Seq<char>) -> bool {
    ||| n == "scratchpad_list"@
    ||| n == "scratchpad_read"@
    ||| n == "scratchpad_write"@
    ||| n == "scratchpad_rename"@
    ||| n == "scratchpad_add_tags"@
    ||| n == "scratchpad_remove_tags"@
    ||| n == "scratchpad_append"@
    ||| n == "scratchpad_append_section"@
    ||| n == "scratchpad_edit"@
    ||| n == "scratchpad_find"@
    ||| n == "scratchpad_tail"@
    ||| n == "scratchpad_clear"@
    ||| n == "scratchpad_archive"@
    ||| n == "scratchpad_delete"@
    ||| n == "scratchpad_transfer"@
    ||| n == "scratchpad_tags_list"@
    ||| n == "scratchpad_save_to_file"@
    ||| n == "scratchpad_load_from_file"@
}

/// What each todo tool does to the project and returns.
pub open spec fn todo_tool_done(
    n: Seq<char>,
    a: Args,
    owner: Seq<char>,
    old: ProjectV,
    new: ProjectV,
    r: Result<ToolOut>,
) -> bool {
    let id = a.id@;
    &&& n == "todo_create"@ ==> {
        &&& same_but_todos(old, new)
        &&& !priority_ok(a.priority@) ==> (r matches Err(Error::Other(m)) && m@ == priority_error(a.priority@)
            && new == old)
        &&& priority_ok(a.priority@) ==> (r matches Ok(ToolOut::Todo(t)) && fresh_todo(
            t@,
            a.title@,
            a.body@,
            create_priority(a.priority@),
            tags_of(a),
            old.actor,
        ) && new.todos == old.todos.push(t@))
    }
    &&& n == "todo_list"@ ==> (r matches Ok(ToolOut::Todos(v)) && views(v@) == listed(old.todos, filter_of(a))
        && new == old)
    &&& n == "todo_get"@ ==> {
        &&& new == old
        &&& has_todo(old.todos, id) ==> (r matches Ok(ToolOut::Todo(t)) && t@ == old.todos[first_todo(old.todos, id)])
        &&& !has_todo(old.todos, id) ==> (r matches Err(Error::NotFound))
    }
    &&& n == "todo_update"@ ==> todo_shaped(r) && edit_outcome(
        old,
        new,
        id,
        as_todo(r),
        update_check(update_of(a)),
        updated_with(update_of(a)),
    )
    &&& n == "todo_delete"@ ==> {
        &&& new.pads == old.pads && new.actor == old.actor && new.path == old.path
        &&& !has_todo(old.todos, id) ==> (r matches Err(Error::NotFound) && new == old)
        &&& has_todo(old.todos, id) ==> (r matches Ok(ToolOut::Nothing) && new.todos == after_delete(old.todos, id)
            && new.comments == keep(old.comments, off_target(norm_target(id))))
    }
    &&& n == "todo_complete"@ ==> todo_shaped(r) && edit_outcome(
        old,
        new,
        id,
        as_todo(r),
        never_refused(),
        completed_as(a.completed != Some(false), true),
    )
    &&& n == "todo_add_tag"@ ==> todo_shaped(r) && edit_outcome(old, new, id, as_todo(r), never_refused(), tag_added(a.tag@))
    &&& n == "todo_remove_tag"@ ==> todo_shaped(r) && edit_outcome(
        old,
        new,
        id,
        as_todo(r),
        never_refused(),
        tag_removed(a.tag@),
    )
    &&& n == "todo_tags_list"@ ==> (r matches Ok(ToolOut::Tags(v)) && ascending(v.deep_view())
        && (forall|y: Seq<char>| v.deep_view().contains(y) <==> tagged(old.todos, y)) && new == old)
    &&& n == "todo_set_blockers"@ ==> todo_shaped(r) && edit_outcome(
        old,
        new,
        id,
        as_todo(r),
        never_refused(),
        blockers_set(a.blockers.deep_view()),
    )
    &&& n == "todo_add_blocker"@ ==> todo_shaped(r) && edit_outcome(
        old,
        new,
        id,
        as_todo(r),
        never_refused(),
        blocker_added(a.blocker@),
    )
    &&& n == "todo_remove_blocker"@ ==> todo_shaped(r) && edit_outcome(
        old,
        new,
        id,
        as_todo(r),
        never_refused(),
        blocker_removed(a.blocker@),
    )
    &&& n == "todo_lock"@ ==> todo_shaped(r) && edit_outcome(
        old,
        new,
        id,
        as_todo(r),
        never_refused(),
        locked_by(owner, a.pid as int),
    )
    &&& n == "todo_unlock"@ ==> todo_shaped(r) && edit_outcome(old, new, id, as_todo(r), unlock_check(owner), unlocked())
    &&& n == "todo_transfer"@ ==> (r matches Err(Error::Other(m)) && m@ == "todo_transfer is phase 2"@ && new == old)
}

/// The lock owner a call acts as.
pub open spec fn owner_of(a: Args, env_owner: Option<Seq<char>>) -> Seq<char> {
    if a.owner@.len() == 0 {
        actor_of(env_owner)
    } else {
        a.owner@
    }
}

/// Runs one todo tool.
#[verifier::spinoff_prover]
#[verifier::rlimit(80)]
pub fn run_todo_tool(p: &mut Project, name: &str, a: &Args, env_owner: Option<String>) -> (r: Result<ToolOut>)
    requires
        is_todo_tool(name@),
    ensures
        todo_tool_done(name@, *a, owner_of(*a, env_owner.deep_view()), old(p)@, final(p)@, r),
{
    proof {
        reveal_strlit("todo_create");
        assert("todo_create"@.len() == 11);
        reveal_strlit("todo_list");
        assert("todo_list"@.len() == 9);
        reveal_strlit("todo_get");
        assert("todo_get"@.len() == 8);
        reveal_strlit("todo_update");
        assert("todo_update"@.len() == 11);
        reveal_strlit("todo_delete");
        assert("todo_delete"@.len() == 11);
        reveal_strlit("todo_complete");
        assert("todo_complete"@.len() == 13);
        reveal_strlit("todo_add_tag");
        assert("todo_add_tag"@.len() == 12);
        reveal_strlit("todo_remove_tag");
        assert("todo_remove_tag"@.len() == 15);
        reveal_strlit("todo_tags_list");
        assert("todo_tags_list"@.len() == 14);
        reveal_strlit("todo_set_blockers");
        assert("todo_set_blockers"@.len() == 17);
        reveal_strlit("todo_add_blocker");
        assert("todo_add_blocker"@.len() == 16);
        reveal_strlit("todo_remove_blocker");
        assert("todo_remove_blocker"@.len() == 19);
        reveal_strlit("todo_lock");
        assert("todo_lock"@.len() == 9);
        reveal_strlit("todo_unlock");
        assert("todo_unlock"@.len() == 11);
        reveal_strlit("todo_transfer");
        assert("todo_transfer"@.len() == 13);
        assert("todo_create"@[5] != "todo_update"@[5]);
        assert("todo_create"@[5] != "todo_delete"@[5]);
        assert("todo_create"@[5] != "todo_unlock"@[5]);
        assert("todo_update"@[5] != "todo_delete"@[5]);
        assert("todo_update"@[6] != "todo_unlock"@[6]);
        assert("todo_delete"@[5] != "todo_unlock"@[5]);
        assert("todo_list"@[6] != "todo_lock"@[6]);
        assert("todo_complete"@[5] != "todo_transfer"@[5]);
    }
    let ghost eo = env_owner.deep_view();
    let id = a.id.as_str();
    let r = if is_text(name, "todo_create") {
        match p.create_todo(a.title.as_str(), a.body.as_str(), a.priority.as_str(), a.tags()) {
            Ok(t) => Ok(ToolOut::Todo(t)),
            Err(e) => Err(e),
        }
    } else if is_text(name, "todo_list") {
        match p.list_todos(filter_from(a)) {
            Ok(v) => Ok(ToolOut::Todos(v)),
            Err(e) => Err(e),
        }
    } else if is_text(name, "todo_get") {
        let rr = wrap_todo(p.get_todo(id));
        rr
    } else if is_text(name, "todo_update") {
        let rr = wrap_todo(p.update_todo(id, update_from(a)));
        rr
    } else if is_text(name, "todo_delete") {
        match p.delete_todo(id) {
            Ok(()) => Ok(ToolOut::Nothing),
            Err(e) => Err(e),
        }
    } else if is_text(name, "todo_complete") {
        match a.completed {
            Some(false) => wrap_todo(p.incomplete_todo(id, true)),
            _ => wrap_todo(p.complete_todo(id, true)),
        }
    } else if is_text(name, "todo_add_tag") {
        let rr = wrap_todo(p.add_todo_tag(id, a.tag.as_str()));
        rr
    } else if is_text(name, "todo_remove_tag") {
        let rr = wrap_todo(p.remove_todo_tag(id, a.tag.as_str()));
        rr
    } else if is_text(name, "todo_tags_list") {
        match p.todo_tags() {
            Ok(v) => Ok(ToolOut::Tags(v)),
            Err(e) => Err(e),
        }
    } else if is_text(name, "todo_set_blockers") {
        let rr = wrap_todo(p.set_blockers(id, crate::text::dup_all(&a.blockers)));
        rr
    } else if is_text(name, "todo_add_blocker") {
        let rr = wrap_todo(p.add_blocker(id, a.blocker.as_str()));
        rr
    } else if is_text(name, "todo_remove_blocker") {
        let rr = wrap_todo(p.remove_blocker(id, a.blocker.as_str()));
        rr
    } else if is_text(name, "todo_lock") {
        let owner = or_agent(a.owner.as_str(), env_owner);
        let rr = wrap_todo(p.lock_todo(id, owner.as_str(), a.pid));
        rr
    } else if is_text(name, "todo_unlock") {
        let owner = or_agent(a.owner.as_str(), env_owner);
        let rr = wrap_todo(p.unlock_todo(id, owner.as_str()));
        rr
    } else {
        Err(Error::Other(from_chars(&to_chars("todo_transfer is phase 2"))))
    };
    assert(todo_tool_done(name@, *a, owner_of(*a, eo), old(p)@, p@, r));
    r
}

/// A revision-guarded pad write: refused when the call omits its expected
/// revision, otherwise as `then` says.
pub open spec fn guarded(a: Args, tool: Seq<char>, old: ProjectV, new: ProjectV, r: Result<ToolOut>, then: bool) -> bool {
    &&& a.expected_revision is None ==> (r matches Err(Error::Other(m)) && m@ == revision_required_text(tool)
        && new == old)
    &&& a.expected_revision is Some ==> then
}

/// A pad write that returns the pad, as `pad_outcome` says.
pub open spec fn pad_write(
    old: ProjectV,
    new: ProjectV,
    a: Args,
    r: Result<ToolOut>,
    check: spec_fn(PadV) -> crate::scratchpads::PadRefusal,
    ok: spec_fn(PadV, PadV) -> bool,
) -> bool {
    pad_shaped(r) && pad_outcome(old, new, a.id@, rev_of(a), as_pad(r), check, ok)
}

pub open spec fn read_is(r: Result<ToolOut>, pad: PadV, text: Seq<char>) -> bool {
    r matches Ok(ToolOut::Read(s, t)) && s@ == pad && t@ == text
}

pub open spec fn tail_is(r: Result<ToolOut>, want: (Seq<char>, int)) -> bool {
    r matches Ok(ToolOut::Tail(t, k)) && (t@, k as int) == want
}

pub open spec fn save_is(r: Result<ToolOut>, text: Seq<char>, path: Seq<char>) -> bool {
    r matches Ok(ToolOut::Save(t, p)) && t@ == text && p@ == path
}

/// The tail length asked for; ten lines when omitted.
pub open spec fn lines_of(a: Args) -> int {
    match a.lines {
        Some(n) => n as int,
        None => 10,
    }
}

/// What each scratchpad tool does to the project and returns.
pub open spec fn pad_tool_done(n: Seq<char>, a: Args, old: ProjectV, new: ProjectV, r: Result<ToolOut>) -> bool {
    let id = a.id@;
    let cur = old.pads[first_pad(old.pads, id)];
    &&& n == "scratchpad_list"@ ==> (r matches Ok(ToolOut::Pads(v)) && views(v@) == pads_listed(
        old.pads,
        tags_of(a),
        a.query@,
        a.include_archived,
        a.offset as int,
        a.limit as int,
    ) && new == old)
    &&& n == "scratchpad_read"@ ==> {
        &&& new == old
        &&& !has_pad(old.pads, id) ==> (r matches Err(Error::NotFound))
        &&& has_pad(old.pads, id) ==> read_is(r, cur, read_view(
            cur.content,
            or_default_text(a.mode@, "full"@),
            a.section_heading@,
            a.offset as int,
            a.limit as int,
        ))
    }
    &&& n == "scratchpad_write"@ ==> {
        &&& id.len() == 0 ==> (r matches Ok(ToolOut::Pad(s)) && fresh_pad(
            s@,
            if a.name@.len() == 0 { first_h1(a.content@) } else { a.name@ },
            a.content@,
            tags_of(a),
            old.actor,
        ) && new.pads == old.pads.push(s@) && same_but_pads(old, new))
        &&& id.len() > 0 ==> guarded(a, n, old, new, r, pad_write(
            old,
            new,
            a,
            r,
            pad_never_refused(),
            pad_updated(None, Some(a.content@), a.tags.deep_view()),
        ))
    }
    &&& n == "scratchpad_rename"@ ==> guarded(a, n, old, new, r, pad_write(old, new, a, r, pad_never_refused(), title_set(a.name@)))
    &&& n == "scratchpad_add_tags"@ ==> guarded(a, n, old, new, r, pad_write(
        old,
        new,
        a,
        r,
        pad_never_refused(),
        pad_updated(None, None, Some(with_new_tags(cur.tags, tags_of(a)))),
    ))
    &&& n == "scratchpad_remove_tags"@ ==> guarded(a, n, old, new, r, pad_write(
        old,
        new,
        a,
        r,
        pad_never_refused(),
        pad_updated(None, None, Some(keep(cur.tags, not_in(tags_of(a))))),
    ))
    &&& n == "scratchpad_append"@ ==> pad_write(old, new, a, r, pad_never_refused(), body_set(appended_fn(a.content@, a.newline)))
    &&& n == "scratchpad_append_section"@ ==> pad_write(
        old,
        new,
        a,
        r,
        section_check(a.heading@),
        body_set(section_appended_fn(a.heading@, a.content@)),
    )
    &&& n == "scratchpad_edit"@ ==> guarded(a, n, old, new, r, pad_write(
        old,
        new,
        a,
        r,
        edit_check(a.target.kind@, a.target.section_heading@, a.target.offset as int, a.target.limit as int),
        body_set(edited_fn(a.target.kind@, a.target.section_heading@, a.target.offset as int, a.target.limit as int, a.content@)),
    ))
    &&& n == "scratchpad_find"@ ==> {
        &&& new == old
        &&& !has_pad(old.pads, id) ==> (r matches Err(Error::NotFound))
        &&& has_pad(old.pads, id) ==> (r matches Ok(ToolOut::Matches(v)) && v@.map_values(|m: Match| match_view(m))
            == found_in(cur.content, a.query@, or_default_text(a.scope@, "all"@), a.case_sensitive, a.context_lines as int))
    }
    &&& n == "scratchpad_tail"@ ==> {
        &&& new == old
        &&& !has_pad(old.pads, id) ==> (r matches Err(Error::NotFound))
        &&& has_pad(old.pads, id) ==> tail_is(r, tail_of(cur.content, lines_of(a)))
    }
    &&& n == "scratchpad_clear"@ ==> guarded(a, n, old, new, r, pad_write(old, new, a, r, pad_never_refused(), body_set(cleared_fn())))
    &&& n == "scratchpad_archive"@ ==> guarded(a, n, old, new, r, pad_write(
        old,
        new,
        a,
        r,
        pad_never_refused(),
        status_set("archived"@),
    ))
    &&& n == "scratchpad_delete"@ ==> guarded(a, n, old, new, r, {
        &&& new.todos == old.todos && new.actor == old.actor && new.path == old.path
        &&& !has_pad(old.pads, id) ==> (r matches Err(Error::NotFound) && new == old)
        &&& has_pad(old.pads, id) && rev_of(a) >= 0 && cur.revision != rev_of(a) ==> (r matches Err(Error::RevisionMismatch)
            && new == old)
        &&& has_pad(old.pads, id) && !(rev_of(a) >= 0 && cur.revision != rev_of(a)) ==> (r matches Ok(ToolOut::Nothing)
            && new.pads == old.pads.remove(first_pad(old.pads, id)) && new.comments == keep(
            old.comments,
            off_target(norm_target(id)),
        ))
    })
    &&& n == "scratchpad_transfer"@ ==> (r matches Err(Error::Other(m)) && m@ == "scratchpad_transfer is phase 2"@
        && new == old)
    &&& n == "scratchpad_tags_list"@ ==> (r matches Ok(ToolOut::Tags(v)) && ascending(v.deep_view())
        && (forall|y: Seq<char>| v.deep_view().contains(y) <==> pad_tagged(old.pads, y)) && new == old)
    &&& n == "scratchpad_save_to_file"@ ==> {
        &&& new == old
        &&& !has_pad(old.pads, id) ==> (r matches Err(Error::NotFound))
        &&& has_pad(old.pads, id) ==> save_is(r, exported(cur), join_path(old.path, a.path@))
    }
    &&& n == "scratchpad_load_from_file"@ ==> (r matches Ok(ToolOut::Load(path)) && path@ == join_path(old.path, a.path@)
        && new == old)
}

/// Runs one scratchpad tool. Loading a pad from a file only resolves the
/// path here: the caller reads the file and imports its text.
#[verifier::spinoff_prover]
#[verifier::rlimit(80)]
pub fn run_pad_tool(p: &mut Project, name: &str, a: &Args) -> (r: Result<ToolOut>)
    requires
        is_pad_tool(name@),
        revision_room(old(p)@.pads, a.id@),
        text_room(old(p)@.pads, a.id@),
    ensures
        pad_tool_done(name@, *a, old(p)@, final(p)@, r),
{
    proof {
        reveal_strlit("scratchpad_list");
        assert("scratchpad_list"@.len() == 15);
        reveal_strlit("scratchpad_read");
        assert("scratchpad_read"@.len() == 15);
        reveal_strlit("scratchpad_write");
        assert("scratchpad_write"@.len() == 16);
        reveal_strlit("scratchpad_rename");
        assert("scratchpad_rename"@.len() == 17);
        reveal_strlit("scratchpad_add_tags");
        assert("scratchpad_add_tags"@.len() == 19);
        reveal_strlit("scratchpad_remove_tags");
        assert("scratchpad_remove_tags"@.len() == 22);
        reveal_strlit("scratchpad_append");
        assert("scratchpad_append"@.len() == 17);
        reveal_strlit("scratchpad_append_section");
        assert("scratchpad_append_section"@.len() == 25);
        reveal_strlit("scratchpad_edit");
        assert("scratchpad_edit"@.len() == 15);
        reveal_strlit("scratchpad_find");
        assert("scratchpad_find"@.len() == 15);
        reveal_strlit("scratchpad_tail");
        assert("scratchpad_tail"@.len() == 15);
        reveal_strlit("scratchpad_clear");
        assert("scratchpad_clear"@.len() == 16);
        reveal_strlit("scratchpad_archive");
        assert("scratchpad_archive"@.len() == 18);
        reveal_strlit("scratchpad_delete");
        assert("scratchpad_delete"@.len() == 17);
        reveal_strlit("scratchpad_transfer");
        assert("scratchpad_transfer"@.len() == 19);
        reveal_strlit("scratchpad_tags_list");
        assert("scratchpad_tags_list"@.len() == 20);
        reveal_strlit("scratchpad_save_to_file");
        assert("scratchpad_save_to_file"@.len() == 23);
        reveal_strlit("scratchpad_load_from_file");
        assert("scratchpad_load_from_file"@.len() == 25);
        assert("scratchpad_list"@[11] != "scratchpad_read"@[11]);
        assert("scratchpad_list"@[11] != "scratchpad_edit"@[11]);
        assert("scratchpad_list"@[11] != "scratchpad_find"@[11]);
        assert("scratchpad_list"@[11] != "scratchpad_tail"@[11]);
        assert("scratchpad_read"@[11] != "scratchpad_edit"@[11]);
        assert("scratchpad_read"@[11] != "scratchpad_find"@[11]);
        assert("scratchpad_read"@[11] != "scratchpad_tail"@[11]);
        assert("scratchpad_edit"@[11] != "scratchpad_find"@[11]);
        assert("scratchpad_edit"@[11] != "scratchpad_tail"@[11]);
        assert("scratchpad_find"@[11] != "scratchpad_tail"@[11]);
        assert("scratchpad_write"@[11] != "scratchpad_clear"@[11]);
        assert("scratchpad_rename"@[11] != "scratchpad_append"@[11]);
        assert("scratchpad_rename"@[11] != "scratchpad_delete"@[11]);
        assert("scratchpad_append"@[11] != "scratchpad_delete"@[11]);
        assert("scratchpad_add_tags"@[11] != "scratchpad_transfer"@[11]);
        assert("scratchpad_append_section"@[11] != "scratchpad_load_from_file"@[11]);
        reveal_strlit("full");
        reveal_strlit("all");
    }
    let id = a.id.as_str();
    if is_text(name, "scratchpad_list") {
        match p.list_scratchpads(&a.tags(), a.query.as_str(), a.include_archived, a.offset, a.limit) {
            Ok(v) => Ok(ToolOut::Pads(v)),
            Err(e) => Err(e),
        }
    } else if is_text(name, "scratchpad_read") {
        let mode = or_default(a.mode.as_str(), "full");
        match p.read_scratchpad(id, mode.as_str(), a.section_heading.as_str(), a.offset, a.limit) {
            Ok((s, t)) => Ok(ToolOut::Read(s, t)),
            Err(e) => Err(e),
        }
    } else if is_text(name, "scratchpad_write") {
        if is_blank(id) {
            wrap_pad(p.create_scratchpad(a.name.as_str(), a.content.as_str(), a.tags()))
        } else {
            match require_revision(a, name) {
                Err(e) => Err(e),
                Ok(()) => {
                    let tags = match &a.tags {
                        Some(t) => Some(crate::text::dup_all(t)),
                        None => None,
                    };
                    wrap_pad(p.update_scratchpad(id, a.rev(), None, Some(a.content.as_str()), tags))
                },
            }
        }
    } else if is_text(name, "scratchpad_rename") {
        match require_revision(a, name) {
            Err(e) => Err(e),
            Ok(()) => wrap_pad(p.rename_scratchpad(id, a.name.as_str(), a.rev())),
        }
    } else if is_text(name, "scratchpad_add_tags") || is_text(name, "scratchpad_remove_tags") {
        match require_revision(a, name) {
            Err(e) => Err(e),
            Ok(()) => match p.read_scratchpad(id, "full", "", 0, 0) {
                Err(e) => Err(e),
                Ok((s, _)) => {
                    let tags = if is_text(name, "scratchpad_add_tags") {
                        merge_tags(&s.tags, &a.tags())
                    } else {
                        drop_tags(&s.tags, &a.tags())
                    };
                    wrap_pad(p.update_scratchpad(id, a.rev(), None, None, Some(tags)))
                },
            },
        }
    } else if is_text(name, "scratchpad_append") {
        wrap_pad(p.append_scratchpad(id, a.content.as_str(), a.rev(), a.newline))
    } else if is_text(name, "scratchpad_append_section") {
        wrap_pad(p.append_section(id, a.heading.as_str(), a.content.as_str(), a.rev()))
    } else if is_text(name, "scratchpad_edit") {
        match require_revision(a, name) {
            Err(e) => Err(e),
            Ok(()) => {
                let t = EditTarget {
                    kind: dup(&a.target.kind),
                    section_heading: dup(&a.target.section_heading),
                    offset: a.target.offset,
                    limit: a.target.limit,
                };
                wrap_pad(p.edit_scratchpad(id, t, a.content.as_str(), a.rev()))
            },
        }
    } else if is_text(name, "scratchpad_find") {
        let scope = or_default(a.scope.as_str(), "all");
        match p.find_in_scratchpad(id, a.query.as_str(), scope.as_str(), a.case_sensitive, a.context_lines) {
            Ok(v) => Ok(ToolOut::Matches(v)),
            Err(e) => Err(e),
        }
    } else if is_text(name, "scratchpad_tail") {
        let n = match a.lines {
            Some(n) => n,
            None => 10,
        };
        match p.tail_scratchpad(id, n) {
            Ok((t, k)) => Ok(ToolOut::Tail(t, k)),
            Err(e) => Err(e),
        }
    } else if is_text(name, "scratchpad_clear") {
        match require_revision(a, name) {
            Err(e) => Err(e),
            Ok(()) => wrap_pad(p.clear_scratchpad(id, a.rev())),
        }
    } else if is_text(name, "scratchpad_archive") {
        match require_revision(a, name) {
            Err(e) => Err(e),
            Ok(()) => wrap_pad(p.archive_scratchpad(id, a.rev())),
        }
    } else if is_text(name, "scratchpad_delete") {
        match require_revision(a, name) {
            Err(e) => Err(e),
            Ok(()) => match p.delete_scratchpad(id, a.rev()) {
                Ok(()) => Ok(ToolOut::Nothing),
                Err(e) => Err(e),
            },
        }
    } else if is_text(name, "scratchpad_transfer") {
        Err(Error::Other(from_chars(&to_chars("scratchpad_transfer is phase 2"))))
    } else if is_text(name, "scratchpad_tags_list") {
        match p.scratchpad_tags() {
            Ok(v) => Ok(ToolOut::Tags(v)),
            Err(e) => Err(e),
        }
    } else if is_text(name, "scratchpad_save_to_file") {
        match p.export_scratchpad(id) {
            Ok(t) => Ok(ToolOut::Save(t, p.resolve_external(a.path.as_str()))),
            Err(e) => Err(e),
        }
    } else {
        Ok(ToolOut::Load(p.resolve_external(a.path.as_str())))
    }
}

fn todo_tool_exec(name: &str) -> (b: bool)
    ensures
        b == is_todo_tool(name@),
{
    is_text(name, "todo_create") || is_text(name, "todo_list") || is_text(name, "todo_get") || is_text(name, "todo_update") || is_text(name, "todo_delete") || is_text(name, "todo_complete") || is_text(name, "todo_add_tag") || is_text(name, "todo_remove_tag") || is_text(name, "todo_tags_list") || is_text(name, "todo_set_blockers") || is_text(name, "todo_add_blocker") || is_text(name, "todo_remove_blocker") || is_text(name, "todo_lock") || is_text(name, "todo_unlock") || is_text(name, "todo_transfer")
}

fn pad_tool_exec(name: &str) -> (b: bool)
    ensures
        b == is_pad_tool(name@),
{
    is_text(name, "scratchpad_list") || is_text(name, "scratchpad_read") || is_text(name, "scratchpad_write") || is_text(name, "scratchpad_rename") || is_text(name, "scratchpad_add_tags") || is_text(name, "scratchpad_remove_tags") || is_text(name, "scratchpad_append") || is_text(name, "scratchpad_append_section") || is_text(name, "scratchpad_edit") || is_text(name, "scratchpad_find") || is_text(name, "scratchpad_tail") || is_text(name, "scratchpad_clear") || is_text(name, "scratchpad_archive") || is_text(name, "scratchpad_delete") || is_text(name, "scratchpad_transfer") || is_text(name, "scratchpad_tags_list") || is_text(name, "scratchpad_save_to_file") || is_text(name, "scratchpad_load_from_file")
}

pub open spec fn unknown_tool_text(name: Seq<char>) -> Seq<char> {
    "unknown tool: "@ + name
}

/// Runs the named tool against the project: one store operation, as
/// `todo_tool_done` and `pad_tool_done` say; an unknown name is refused and
/// changes nothing.
pub fn run_tool(p: &mut Project, name: &str, a: &Args, env_owner: Option<String>) -> (r: Result<ToolOut>)
    requires
        revision_room(old(p)@.pads, a.id@),
        text_room(old(p)@.pads, a.id@),
    ensures
        !is_todo_tool(name@) && !is_pad_tool(name@) ==> (r matches Err(Error::Other(m)) && m@ == unknown_tool_text(name@)
            && final(p)@ == old(p)@),
        is_todo_tool(name@) ==> todo_tool_done(name@, *a, owner_of(*a, env_owner.deep_view()), old(p)@, final(p)@, r),
        is_pad_tool(name@) ==> pad_tool_done(name@, *a, old(p)@, final(p)@, r),
{
    if todo_tool_exec(name) {
        proof {
            assert(!is_pad_tool(name@)) by {
                reveal_strlit("todo_create");
                reveal_strlit("todo_list");
                reveal_strlit("todo_get");
                reveal_strlit("todo_update");
                reveal_strlit("todo_delete");
                reveal_strlit("todo_complete");
                reveal_strlit("todo_add_tag");
                reveal_strlit("todo_remove_tag");
                reveal_strlit("todo_tags_list");
                reveal_strlit("todo_set_blockers");
                reveal_strlit("todo_add_blocker");
                reveal_strlit("todo_remove_blocker");
                reveal_strlit("todo_lock");
                reveal_strlit("todo_unlock");
                reveal_strlit("todo_transfer");
                assert(name@[0] == 't');
                reveal_strlit("scratchpad_list");
                reveal_strlit("scratchpad_read");
                reveal_strlit("scratchpad_write");
                reveal_strlit("scratchpad_rename");
                reveal_strlit("scratchpad_add_tags");
                reveal_strlit("scratchpad_remove_tags");
                reveal_strlit("scratchpad_append");
                reveal_strlit("scratchpad_append_section");
                reveal_strlit("scratchpad_edit");
                reveal_strlit("scratchpad_find");
                reveal_strlit("scratchpad_tail");
                reveal_strlit("scratchpad_clear");
                reveal_strlit("scratchpad_archive");
                reveal_strlit("scratchpad_delete");
                reveal_strlit("scratchpad_transfer");
                reveal_strlit("scratchpad_tags_list");
                reveal_strlit("scratchpad_save_to_file");
                reveal_strlit("scratchpad_load_from_file");
            }
        }
        run_todo_tool(p, name, a, env_owner)
    } else if pad_tool_exec(name) {
        run_pad_tool(p, name, a)
    } else {
        Err(Error::Other(cat("unknown tool: ", name)))
    }
}

// ------------------------------------------------------------ JSON-RPC methods
/// How the server answers a request method.
#[derive(Debug, Clone, PartialEq, Eq)]
pub enum Route {
    /// A notification: no reply at all.
    Silent,
    Initialize,
    Ping,
    ListTools,
    CallTool,
    /// A JSON-RPC error (-32601) with this message.
    NotFound(String),
}

pub open spec fn route_of(method: Seq<char>) -> Route {
    if method == "notifications/initialized"@ {
        Route::Silent
    } else if method == "initialize"@ {
        Route::Initialize
    } else if method == "ping"@ {
        Route::Ping
    } else if method == "tools/list"@ {
        Route::ListTools
    } else if method == "tools/call"@ {
        Route::CallTool
    } else {
        Route::NotFound(arbitrary())
    }
}

pub open spec fn method_not_found_text(method: Seq<char>) -> Seq<char> {
    "method not found: "@ + method
}

/// Where a request goes.
pub fn route(method: &str) -> (r: Route)
    ensures
        route_of(method@) is NotFound ==> (r matches Route::NotFound(m) && m@ == method_not_found_text(method@)),
        !(route_of(method@) is NotFound) ==> r == route_of(method@),
{
    if is_text(method, "notifications/initialized") {
        Route::Silent
    } else if is_text(method, "initialize") {
        Route::Initialize
    } else if is_text(method, "ping") {
        Route::Ping
    } else if is_text(method, "tools/list") {
        Route::ListTools
    } else if is_text(method, "tools/call") {
        Route::CallTool
    } else {
        Route::NotFound(cat("method not found: ", method))
    }
}

/// The protocol version to answer `initialize` with: the client's, else
/// the one this server speaks.
pub fn protocol_version(asked: Option<String>) -> (r: String)
    ensures
        r@ == match asked {
            Some(v) => or_default_text(v@, "2025-06-18"@),
            None => "2025-06-18"@,
        },
{
    match asked {
        Some(v) => or_default(v.as_str(), "2025-06-18"),
        None => from_chars(&to_chars("2025-06-18")),
    }
}

} // verus!
