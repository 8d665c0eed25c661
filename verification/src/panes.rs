//! The terminal panes' state and actions: the store, the navigation, the
//! loaded lists, the detail view and the editor's buffers, and what each
//! action does to them. A driver draws the state, feeds keys and clicks in,
//! and carries out the few requests that need the outside world (reading a
//! plan file, copying to the clipboard, saving the store).
use vstd::prelude::*;
use crate::errors::{Error, Result, error_text};
use crate::nav::{
    Nav, Key, Effect, clamped, collapse_title, switched, list_step, read_step, confirm_step, edit_step, discard_step,
    filter_step, click_step,
};
use crate::order::{keep, views, lemma_keep_step, lemma_keep_all, lemma_count_le, count_where};
use crate::plans::{Plan, PlanV, plan_shown, visible_plans};
use crate::project::Project;
use crate::project::ProjectV;
use crate::scratchpads::{Scratchpad, PadV, pads_listed};
use crate::text::{dup, lower, to_chars, from_chars, eq_chars, cat, is_blank, join_with, slice_chars, skip_chars, concat_chars};
use crate::todos::{
    Todo, TodoV, TodoFilter, FilterV, UpdateV, TodoUpdate, listed, is_blocked_by, edit_outcome, never_refused,
    completed_as, update_check, updated_with, has_todo, after_delete, fresh_todo, same_but_todos,
};
use crate::comments::{off_target, norm_target};
use crate::scratchpads::{has_pad, first_pad, words, fresh_pad, same_but_pads, revision_room, text_room, pad_outcome, pad_never_refused, pad_updated};
use crate::tui::{Tab, Mode, Focus, Hits, tab_index, tab_hit, todo_shown, pad_shown, visible_todos, visible_pads, next_prio, next_priority};

verus! {

/// Everything the panes show and edit.
pub struct App {
    pub p: Project,
    pub nav: Nav,
    /// The one-line status message (empty = none).
    pub status: String,
    /// The Todos tab's rows: every todo by priority, completed ones dropped
    /// while they are hidden.
    pub todos: Vec<Todo>,
    /// Ids of the listed todos that are blocked.
    pub blocked: Vec<String>,
    /// The Scratchpads tab's rows (without their bodies).
    pub pads: Vec<Scratchpad>,
    /// The Plans tab's rows.
    pub plans: Vec<Plan>,
    /// The item open in the detail view; it pins the cursor across reloads.
    pub read_id: String,
    pub read_body: String,
    pub read_scroll: u16,
    /// The editor's buffers, and where in each the cursor stands (a
    /// character position; one past the end is the end).
    pub title: String,
    pub body: String,
    pub title_at: usize,
    pub body_at: usize,
    pub edit_orig_title: String,
    pub edit_orig_body: String,
    /// The edited todo's `updated` stamp when the editor opened.
    pub edit_updated: String,
    /// The edited item's id (empty = a new, unsaved item).
    pub edit_id: String,
    /// The edited scratchpad's revision when the editor opened.
    pub edit_rev: i64,
    /// Regions the last draw recorded.
    pub hits: Hits,
    /// The store changed since the driver last saved it.
    pub changed: bool,
}

// ------------------------------------------------------------ the rows
/// The todos shown under a filter.
pub open spec fn shown_todos(ts: Seq<TodoV>, f: Seq<char>) -> Seq<TodoV> {
    if f.len() == 0 {
        ts
    } else {
        keep(ts, todo_shown(lower(f)))
    }
}

pub open spec fn shown_pads(ps: Seq<PadV>, f: Seq<char>) -> Seq<PadV> {
    if f.len() == 0 {
        ps
    } else {
        keep(ps, pad_shown(lower(f)))
    }
}

pub open spec fn shown_plans(ds: Seq<PlanV>, f: Seq<char>) -> Seq<PlanV> {
    if f.len() == 0 {
        ds
    } else {
        keep(ds, plan_shown(lower(f)))
    }
}

pub open spec fn todo_ids(ts: Seq<TodoV>) -> Seq<Seq<char>> {
    ts.map_values(|t: TodoV| t.id)
}

pub open spec fn pad_ids(ps: Seq<PadV>) -> Seq<Seq<char>> {
    ps.map_values(|s: PadV| s.id)
}

pub open spec fn plan_ids(ds: Seq<PlanV>) -> Seq<Seq<char>> {
    ds.map_values(|d: PlanV| d.abs_path)
}

/// The ids of the rows the current tab shows (a plan goes by its path).
pub open spec fn row_ids(a: App) -> Seq<Seq<char>> {
    match a.nav.tab {
        Tab::Todos => todo_ids(shown_todos(views(a.todos@), a.nav.filter@)),
        Tab::Scratchpads => pad_ids(shown_pads(views(a.pads@), a.nav.filter@)),
        Tab::Plans => plan_ids(shown_plans(views(a.plans@), a.nav.filter@)),
    }
}

/// The current tab's cursor.
pub open spec fn cur(a: App) -> int {
    a.nav.cursor@[tab_index(a.nav.tab) as int] as int
}

/// The id of the selected row, if the cursor is on one.
pub open spec fn sel(a: App) -> Option<Seq<char>> {
    if 0 <= cur(a) < row_ids(a).len() {
        Some(row_ids(a)[cur(a)])
    } else {
        None
    }
}

/// Where `id` first occurs in `ids`.
pub open spec fn first_pos(ids: Seq<Seq<char>>, id: Seq<char>) -> Option<int>
    decreases ids.len(),
{
    if ids.len() == 0 {
        None
    } else {
        match first_pos(ids.drop_last(), id) {
            Some(i) => Some(i),
            None => if ids.last() == id {
                Some(ids.len() - 1)
            } else {
                None
            },
        }
    }
}

/// The cursor moved onto `id`'s row, when there is one.
pub open spec fn pinned(c: int, ids: Seq<Seq<char>>, target: Option<Seq<char>>) -> int {
    match target {
        Some(id) => match first_pos(ids, id) {
            Some(i) => i,
            None => c,
        },
        None => c,
    }
}

// ------------------------------------------------------------ reloading
/// Every todo, by priority.
pub open spec fn by_priority() -> FilterV {
    FilterV {
        status: Seq::empty(),
        completed: None,
        is_blocked: None,
        priority: Seq::empty(),
        query: Seq::empty(),
        tags: Seq::empty(),
        sort: "priority"@,
        offset: 0,
        limit: 0,
    }
}

pub open spec fn not_completed() -> spec_fn(TodoV) -> bool {
    |t: TodoV| t.status != "completed"@
}

/// The Todos tab's rows for a store.
pub open spec fn todo_rows(p: ProjectV, hide_completed: bool) -> Seq<TodoV> {
    if hide_completed {
        keep(listed(p.todos, by_priority()), not_completed())
    } else {
        listed(p.todos, by_priority())
    }
}

pub open spec fn blocked_in(all: Seq<TodoV>) -> spec_fn(TodoV) -> bool {
    |t: TodoV| is_blocked_by(t, all)
}

/// The ids of the blocked rows.
pub open spec fn blocked_rows(p: ProjectV, rows: Seq<TodoV>) -> Seq<Seq<char>> {
    todo_ids(keep(rows, blocked_in(p.todos)))
}

/// The Scratchpads tab's rows for a store.
pub open spec fn pad_rows(p: ProjectV) -> Seq<PadV> {
    pads_listed(p.pads, Seq::empty(), Seq::empty(), false, 0, 0)
}

/// What a reload keeps the cursor on: the open item in the detail view or
/// editor, else the selected row in the list.
pub open spec fn pin_target(a: App) -> Option<Seq<char>> {
    if (a.nav.mode == Mode::Read || a.nav.mode == Mode::Edit || a.nav.mode == Mode::DiscardConfirm)
        && a.read_id@.len() > 0 {
        Some(a.read_id@)
    } else if a.nav.mode == Mode::List {
        sel(a)
    } else {
        None
    }
}

/// The navigation is the same but for the cursors.
pub open spec fn same_nav_but_cursor(a: Nav, b: Nav) -> bool {
    &&& b.tab == a.tab && b.mode == a.mode && b.filter@ == a.filter@
    &&& b.hide_completed == a.hide_completed && b.pending@ == a.pending@
    &&& b.pending_tab == a.pending_tab && b.raw == a.raw && b.focus == a.focus
    &&& b.edit_return == a.edit_return && b.quit == a.quit
}

pub open spec fn same_nav(a: Nav, b: Nav) -> bool {
    same_nav_but_cursor(a, b) && b.cursor@ == a.cursor@
}

/// The detail view and the editor are unchanged.
pub open spec fn same_detail(a: App, b: App) -> bool {
    &&& b.read_id@ == a.read_id@ && b.read_body@ == a.read_body@ && b.read_scroll == a.read_scroll
    &&& b.title@ == a.title@ && b.body@ == a.body@ && b.title_at == a.title_at && b.body_at == a.body_at
    &&& b.edit_orig_title@ == a.edit_orig_title@ && b.edit_orig_body@ == a.edit_orig_body@
    &&& b.edit_updated@ == a.edit_updated@ && b.edit_id@ == a.edit_id@ && b.edit_rev == a.edit_rev
    &&& b.hits == a.hits
}

/// The loaded lists are unchanged.
pub open spec fn same_lists(a: App, b: App) -> bool {
    &&& views(b.todos@) == views(a.todos@) && b.blocked.deep_view() == a.blocked.deep_view()
    &&& views(b.pads@) == views(a.pads@) && views(b.plans@) == views(a.plans@)
}

/// After a reload from `pre` (with the given plans): the lists are read
/// again from the store, the cursor is pinned to `pin_target(pre)` and
/// clamped; the navigation is otherwise kept.
pub open spec fn reloaded_with(pre: App, post: App, plans: Seq<PlanV>) -> bool {
    &&& views(post.todos@) == todo_rows(post.p@, pre.nav.hide_completed)
    &&& post.blocked.deep_view() == blocked_rows(post.p@, views(post.todos@))
    &&& views(post.pads@) == pad_rows(post.p@)
    &&& views(post.plans@) == plans
    &&& same_nav_but_cursor(pre.nav, post.nav)
    &&& post.nav.cursor@ == pre.nav.cursor@.update(
        tab_index(pre.nav.tab) as int,
        clamped(pinned(cur(pre), row_ids(post), pin_target(pre)), 0, row_ids(post).len() as int) as usize,
    )
}

pub open spec fn reloaded(pre: App, post: App) -> bool {
    reloaded_with(pre, post, views(pre.plans@))
}


// ------------------------------------------------------------ actions
/// What the panes ask of the driver after a key or a click.
pub enum Request {
    Nothing,
    /// Read the plan file at this path and hand it to `open_plan`.
    ReadPlan(String),
    /// Copy this id to the clipboard and report with `copied`.
    Copy(String),
}

/// The todo under the Todos tab's cursor (in the filtered list).
pub open spec fn todo_under_cursor(a: App) -> Option<TodoV> {
    let v = shown_todos(views(a.todos@), a.nav.filter@);
    let c = a.nav.cursor@[0] as int;
    if c < v.len() {
        Some(v[c])
    } else {
        None
    }
}

/// The status line after a store call: kept on success, "<what> failed:
/// <error>" otherwise.
pub open spec fn after_call<T>(status: Seq<char>, what: Seq<char>, r: Result<T>) -> Seq<char> {
    match r {
        Ok(_) => status,
        Err(e) => what + " failed: "@ + error_text(e),
    }
}

/// Only the store, the status line and the changed flag may differ.
pub open spec fn only_store(a: App, b: App) -> bool {
    same_nav(a.nav, b.nav) && same_lists(a, b) && same_detail(a, b)
}

/// Space on a todo: the todo under the cursor is completed, or reopened
/// when it is completed (its lock kept); `p`, `status` and `changed` are
/// the store, status line and flag afterwards.
pub open spec fn toggle_store(a: App, p: ProjectV, status: Seq<char>, changed: bool, r: Option<Result<Todo>>) -> bool {
    match todo_under_cursor(a) {
        None => r is None && p == a.p@ && status == a.status@ && changed == a.changed,
        Some(t) => r matches Some(res) && edit_outcome(
            a.p@,
            p,
            t.id,
            res,
            never_refused(),
            completed_as(t.status != "completed"@, false),
        ) && status == after_call(a.status@, "status change"@, res) && changed,
    }
}

pub open spec fn toggled(a: App, b: App, r: Option<Result<Todo>>) -> bool {
    only_store(a, b) && toggle_store(a, b.p@, b.status@, b.changed, r)
}

/// The update that moves a todo to the priority after `cur`.
pub open spec fn prio_update(cur: Seq<char>) -> UpdateV {
    UpdateV { title: None, body: None, priority: Some(next_prio(cur)), status: None, tags: None, expected_updated: None }
}

/// 'p' on a todo: the todo under the cursor moves to its next priority.
pub open spec fn cycle_store(a: App, p: ProjectV, status: Seq<char>, changed: bool, r: Option<Result<Todo>>) -> bool {
    match todo_under_cursor(a) {
        None => r is None && p == a.p@ && status == a.status@ && changed == a.changed,
        Some(t) => r matches Some(res) && edit_outcome(
            a.p@,
            p,
            t.id,
            res,
            update_check(prio_update(t.priority)),
            updated_with(prio_update(t.priority)),
        ) && status == after_call(a.status@, "priority change"@, res) && changed,
    }
}

pub open spec fn cycled(a: App, b: App, r: Option<Result<Todo>>) -> bool {
    only_store(a, b) && cycle_store(a, b.p@, b.status@, b.changed, r)
}

/// The revision the Scratchpads tab loaded for a pad.
pub open spec fn loaded_rev(a: App, id: Seq<char>) -> Option<int> {
    match first_pos(pad_ids(views(a.pads@)), id) {
        Some(i) => Some(views(a.pads@)[i].revision),
        None => None,
    }
}

/// A confirmed delete of `id`: a todo is deleted; a pad is deleted against
/// the revision its row was loaded with (`r` is what the store call gave).
pub open spec fn delete_store(a: App, p: ProjectV, status: Seq<char>, changed: bool, id: Seq<char>, r: Option<Result<()>>) -> bool {
    if id.len() == 0 {
        r is None && p == a.p@ && status == a.status@ && changed == a.changed
    } else if a.nav.tab == Tab::Todos {
        r matches Some(res) && todo_deleted(a.p@, p, id, res) && status == after_call(a.status@, "delete"@, res)
            && changed
    } else {
        match loaded_rev(a, id) {
            None => r is None && p == a.p@ && status == "delete failed: no revision for "@ + id && changed
                == a.changed,
            Some(rev) => r matches Some(res) && pad_deleted(a.p@, p, id, rev, res) && status == after_call(
                a.status@,
                "delete"@,
                res,
            ) && changed,
        }
    }
}

pub open spec fn deleted(a: App, b: App, id: Seq<char>, r: Option<Result<()>>) -> bool {
    only_store(a, b) && delete_store(a, b.p@, b.status@, b.changed, id, r)
}

/// What `delete_todo` does.
pub open spec fn todo_deleted(a: ProjectV, b: ProjectV, id: Seq<char>, r: Result<()>) -> bool {
    &&& !has_todo(a.todos, id) ==> (r matches Err(Error::NotFound) && b == a)
    &&& has_todo(a.todos, id) ==> (r is Ok && b.todos == after_delete(a.todos, id)
        && b.comments == keep(a.comments, off_target(norm_target(id))))
    &&& b.path == a.path && b.name == a.name && b.dir == a.dir && b.actor == a.actor && b.pads == a.pads
}

/// What `delete_scratchpad` does.
pub open spec fn pad_deleted(a: ProjectV, b: ProjectV, id: Seq<char>, rev: int, r: Result<()>) -> bool {
    &&& !has_pad(a.pads, id) ==> (r matches Err(Error::NotFound) && b == a)
    &&& has_pad(a.pads, id) && rev >= 0 && a.pads[first_pad(a.pads, id)].revision != rev
        ==> (r matches Err(Error::RevisionMismatch) && b == a)
    &&& has_pad(a.pads, id) && !(rev >= 0 && a.pads[first_pad(a.pads, id)].revision != rev)
        ==> (r is Ok && b.pads == a.pads.remove(first_pad(a.pads, id))
        && b.comments == keep(a.comments, off_target(norm_target(id))))
    &&& b.path == a.path && b.name == a.name && b.dir == a.dir && b.actor == a.actor && b.todos == a.todos
}

/// The detail view scrolled by `d` lines (not above the top).
pub open spec fn scrolled(a: App, b: App, d: int) -> bool {
    &&& b.read_scroll == (if a.read_scroll + d < 0 { 0 } else { a.read_scroll + d }) as u16
    &&& same_nav(a.nav, b.nav) && same_lists(a, b)
    &&& b.p@ == a.p@ && b.status@ == a.status@ && b.changed == a.changed
    &&& b.read_id@ == a.read_id@ && b.read_body@ == a.read_body@
    &&& b.title@ == a.title@ && b.body@ == a.body@ && b.title_at == a.title_at && b.body_at == a.body_at
    &&& b.edit_orig_title@ == a.edit_orig_title@ && b.edit_orig_body@ == a.edit_orig_body@
    &&& b.edit_updated@ == a.edit_updated@ && b.edit_id@ == a.edit_id@ && b.edit_rev == a.edit_rev
    &&& b.hits == a.hits
}

/// The editor holds changes.
pub open spec fn dirty(a: App) -> bool {
    a.title@ != a.edit_orig_title@ || a.body@ != a.edit_orig_body@
}


/// `b` is `a` with the navigation's mode set to `m`.
pub open spec fn in_mode(a: Nav, b: Nav, m: Mode) -> bool {
    &&& b.mode == m && b.tab == a.tab && b.cursor@ == a.cursor@ && b.filter@ == a.filter@
    &&& b.hide_completed == a.hide_completed && b.pending@ == a.pending@
    &&& b.pending_tab == a.pending_tab && b.raw == a.raw && b.focus == a.focus
    &&& b.edit_return == a.edit_return && b.quit == a.quit
}

/// The editor's state is unchanged.
pub open spec fn same_editor(a: App, b: App) -> bool {
    &&& b.title@ == a.title@ && b.body@ == a.body@ && b.title_at == a.title_at && b.body_at == a.body_at
    &&& b.edit_orig_title@ == a.edit_orig_title@ && b.edit_orig_body@ == a.edit_orig_body@
    &&& b.edit_updated@ == a.edit_updated@ && b.edit_id@ == a.edit_id@ && b.edit_rev == a.edit_rev
}

/// The detail view shows `body` for `id`, from the top.
pub open spec fn reading(a: App, b: App, id: Seq<char>, body: Seq<char>) -> bool {
    &&& b.read_id@ == id && b.read_body@ == body && b.read_scroll == 0
    &&& in_mode(a.nav, b.nav, Mode::Read)
    &&& same_lists(a, b) && same_editor(a, b) && b.hits == a.hits
    &&& b.p@ == a.p@ && b.status@ == a.status@ && b.changed == a.changed
}

/// A read that failed: the message on the status line, back on the list.
pub open spec fn read_failed(a: App, b: App, msg: Seq<char>) -> bool {
    &&& b.status@ == "read failed: "@ + msg
    &&& in_mode(a.nav, b.nav, Mode::List)
    &&& same_lists(a, b) && same_detail(a, b)
    &&& b.p@ == a.p@ && b.changed == a.changed
}

/// Nothing changes.
pub open spec fn unchanged(a: App, b: App) -> bool {
    only_store(a, b) && b.p@ == a.p@ && b.status@ == a.status@ && b.changed == a.changed
}

/// Opening the selected row in the detail view: a todo shows its body, a
/// pad its content (read from the store); a plan's file is asked of the
/// driver.
pub open spec fn opened(a: App, b: App, r: Request) -> bool {
    match sel(a) {
        None => r is Nothing && unchanged(a, b),
        Some(id) => match a.nav.tab {
            Tab::Todos => r is Nothing && match todo_under_cursor(a) {
                Some(t) => reading(a, b, id, t.body),
                None => in_mode(a.nav, b.nav, Mode::List) && only_store(App { nav: b.nav, ..a }, b)
                    && b.p@ == a.p@ && b.status@ == a.status@ && b.changed == a.changed,
            },
            Tab::Scratchpads => r is Nothing && if has_pad(a.p@.pads, id) {
                reading(a, b, id, a.p@.pads[first_pad(a.p@.pads, id)].content)
            } else {
                read_failed(a, b, "not found"@)
            },
            Tab::Plans => r matches Request::ReadPlan(path) && path@ == id && unchanged(a, b),
        },
    }
}

/// The editor open on an item: its title and body in the buffers (and as
/// the originals), the body focused, returning to where it was opened.
pub open spec fn editing(a: App, b: App, id: Seq<char>, title: Seq<char>, body: Seq<char>) -> bool {
    &&& b.title@ == title && b.body@ == body && b.edit_orig_title@ == title && b.edit_orig_body@ == body
    &&& b.title_at == 0 && b.body_at == 0
    &&& b.edit_id@ == id && b.read_id@ == id
    &&& b.nav.mode == Mode::Edit && b.nav.focus == crate::tui::Focus::Body && b.nav.edit_return == a.nav.mode
    &&& b.nav.tab == a.nav.tab && b.nav.cursor@ == a.nav.cursor@ && b.nav.filter@ == a.nav.filter@
    &&& b.nav.hide_completed == a.nav.hide_completed && b.nav.pending@ == a.nav.pending@
    &&& b.nav.pending_tab == a.nav.pending_tab && b.nav.raw == a.nav.raw && b.nav.quit == a.nav.quit
    &&& b.status@.len() == 0
    &&& same_lists(a, b) && b.read_body@ == a.read_body@ && b.read_scroll == a.read_scroll && b.hits == a.hits
    &&& b.p@ == a.p@ && b.changed == a.changed
}

/// Opening the editor on the selected row: a todo from the loaded list
/// (remembering its `updated` stamp), a pad from the store (remembering its
/// revision).
pub open spec fn edit_opened(a: App, b: App) -> bool {
    match sel(a) {
        None => unchanged(a, b),
        Some(id) => if a.nav.tab == Tab::Todos {
            match first_pos(todo_ids(views(a.todos@)), id) {
                None => unchanged(a, b),
                Some(i) => editing(a, b, id, views(a.todos@)[i].title, views(a.todos@)[i].body)
                    && b.edit_updated@ == views(a.todos@)[i].updated && b.edit_rev == a.edit_rev,
            }
        } else if has_pad(a.p@.pads, id) {
            editing(a, b, id, a.p@.pads[first_pad(a.p@.pads, id)].title, a.p@.pads[first_pad(a.p@.pads, id)].content)
                && b.edit_rev == a.p@.pads[first_pad(a.p@.pads, id)].revision && b.edit_updated@ == a.edit_updated@
        } else {
            b.status@ == "open failed: not found"@ && only_store(a, b) && b.p@ == a.p@ && b.changed == a.changed
        },
    }
}

/// The editor open on a new, unsaved item, with the title focused.
pub open spec fn new_opened(a: App, b: App) -> bool {
    &&& b.title@.len() == 0 && b.body@.len() == 0 && b.edit_orig_title@.len() == 0 && b.edit_orig_body@.len() == 0
    &&& b.title_at == 0 && b.body_at == 0
    &&& b.edit_updated@.len() == 0 && b.edit_rev == 0 && b.edit_id@.len() == 0 && b.read_id@.len() == 0
    &&& b.nav.mode == Mode::Edit && b.nav.focus == crate::tui::Focus::Title && b.nav.edit_return == Mode::List
    &&& b.nav.tab == a.nav.tab && b.nav.cursor@ == a.nav.cursor@ && b.nav.filter@ == a.nav.filter@
    &&& b.nav.hide_completed == a.nav.hide_completed && b.nav.pending@ == a.nav.pending@
    &&& b.nav.pending_tab == a.nav.pending_tab && b.nav.raw == a.nav.raw && b.nav.quit == a.nav.quit
    &&& b.status@.len() == 0
    &&& same_lists(a, b) && b.read_body@ == a.read_body@ && b.read_scroll == a.read_scroll && b.hits == a.hits
    &&& b.p@ == a.p@ && b.changed == a.changed
}


/// The title as it is saved: its words joined by single spaces.
pub open spec fn saved_title(a: App) -> Seq<char> {
    join_with(words(a.title@), " "@)
}

/// The update a save of an edited todo makes, guarded by the stamp the
/// editor opened with.
pub open spec fn save_update(a: App) -> UpdateV {
    UpdateV {
        title: Some(saved_title(a)),
        body: Some(a.body@),
        priority: None,
        status: None,
        tags: None,
        expected_updated: Some(a.edit_updated@),
    }
}

/// After a successful save: on mode `m` (the detail view showing the saved
/// body when `m` is Read), the status line cleared, the lists reloaded.
pub open spec fn landed(a: App, b: App, m: Mode) -> bool {
    &&& reloaded(App { nav: Nav { mode: m, ..a.nav }, ..a }, b)
    &&& b.status@.len() == 0
    &&& b.read_body@ == (if m == Mode::Read { a.body@ } else { a.read_body@ })
    &&& b.read_id@ == a.read_id@ && b.read_scroll == a.read_scroll && same_editor(a, b) && b.hits == a.hits
    &&& b.changed
}

/// A save turned down: the message on the status line, the editor open with
/// its buffers as they were.
pub open spec fn save_refused(a: App, b: App, msg: Seq<char>) -> bool {
    b.status@ == msg && only_store(a, b) && b.p@ == a.p@ && b.changed == a.changed
}

/// Ctrl+D in the editor. A new item needs a title and is created (a todo
/// at medium priority); an edited todo is updated unless it changed since
/// the editor opened; an edited pad is updated against the revision the
/// editor opened with. On success the editor closes.
pub open spec fn saved(a: App, b: App) -> bool {
    if a.edit_id@.len() == 0 {
        if saved_title(a).len() == 0 {
            save_refused(a, b, "title required"@)
        } else if a.nav.tab == Tab::Todos {
            &&& exists|t: TodoV| #[trigger] fresh_todo(t, saved_title(a), a.body@, "medium"@, Seq::empty(), a.p@.actor)
                && b.p@.todos == a.p@.todos.push(t)
            &&& same_but_todos(a.p@, b.p@)
            &&& landed(a, b, Mode::List)
        } else {
            &&& exists|s: PadV| #[trigger] fresh_pad(s, saved_title(a), a.body@, Seq::empty(), a.p@.actor)
                && b.p@.pads == a.p@.pads.push(s)
            &&& same_but_pads(a.p@, b.p@)
            &&& landed(a, b, Mode::List)
        }
    } else if a.nav.tab == Tab::Todos {
        exists|r: Result<Todo>| #[trigger] edit_outcome(
            a.p@,
            b.p@,
            a.edit_id@,
            r,
            update_check(save_update(a)),
            updated_with(save_update(a)),
        ) && match r {
            Ok(_) => landed(a, b, a.nav.edit_return),
            Err(e) => save_refused(a, b, "save failed: "@ + error_text(e)),
        }
    } else if !(revision_room(a.p@.pads, a.edit_id@) && text_room(a.p@.pads, a.edit_id@)) {
        save_refused(a, b, "save failed: scratchpad is too large to change"@)
    } else {
        exists|r: Result<Scratchpad>| #[trigger] pad_outcome(
            a.p@,
            b.p@,
            a.edit_id@,
            a.edit_rev as int,
            r,
            pad_never_refused(),
            pad_updated(Some(saved_title(a)), Some(a.body@), None),
        ) && match r {
            Ok(_) => landed(a, b, a.nav.edit_return),
            Err(e) => save_refused(a, b, "save failed: "@ + error_text(e)),
        }
    }
}

/// A cursor kept within a buffer of `len` characters.
pub open spec fn within(at: int, len: int) -> int {
    if at > len {
        len
    } else {
        at
    }
}

/// Where the line holding position `at` starts.
pub open spec fn line_start(s: Seq<char>, at: int) -> int
    decreases at,
{
    if at <= 0 {
        0
    } else if s[at - 1] == '\n' {
        at
    } else {
        line_start(s, at - 1)
    }
}

/// Where the line holding position `at` ends (its line break, or the end).
pub open spec fn line_end(s: Seq<char>, at: int) -> int
    decreases s.len() - at,
{
    if at >= s.len() {
        s.len() as int
    } else if s[at] == '\n' {
        at
    } else {
        line_end(s, at + 1)
    }
}

/// The same column on the line above (or that line's end when it is
/// shorter); nowhere else on the first line.
pub open spec fn line_up(s: Seq<char>, at: int) -> int {
    let ls = line_start(s, at);
    if ls == 0 {
        at
    } else {
        let ps = line_start(s, ls - 1);
        if ps + (at - ls) > ls - 1 {
            ls - 1
        } else {
            ps + (at - ls)
        }
    }
}

/// The same column on the line below (or that line's end when it is
/// shorter); nowhere else on the last line.
pub open spec fn line_down(s: Seq<char>, at: int) -> int {
    let le = line_end(s, at);
    if le == s.len() {
        at
    } else {
        let ne = line_end(s, le + 1);
        if le + 1 + (at - line_start(s, at)) > ne {
            ne
        } else {
            le + 1 + (at - line_start(s, at))
        }
    }
}

/// A buffer and its cursor after an editor key: a character goes in at the
/// cursor, Enter puts a line break there (not in the one-line title),
/// Backspace and Delete remove the character before and after it; the
/// arrows, Home and End (and Ctrl+B, Ctrl+F, Ctrl+A, Ctrl+E) move it.
pub open spec fn key_edited(buf: Seq<char>, at0: int, k: Key, one_line: bool) -> (Seq<char>, int) {
    let at = within(at0, buf.len() as int);
    match k {
        Key::Char(c) => (buf.take(at) + seq![c] + buf.skip(at), at + 1),
        Key::Enter => if one_line {
            (buf, at)
        } else {
            (buf.take(at) + seq!['\n'] + buf.skip(at), at + 1)
        },
        Key::Backspace => if at == 0 {
            (buf, at)
        } else {
            (buf.take(at - 1) + buf.skip(at), at - 1)
        },
        Key::Delete => if at == buf.len() {
            (buf, at)
        } else {
            (buf.take(at) + buf.skip(at + 1), at)
        },
        Key::Left | Key::Ctrl('b') => (buf, if at == 0 { 0 } else { at - 1 }),
        Key::Right | Key::Ctrl('f') => (buf, if at == buf.len() { at } else { at + 1 }),
        Key::Home | Key::Ctrl('a') => (buf, line_start(buf, at)),
        Key::End | Key::Ctrl('e') => (buf, line_end(buf, at)),
        Key::Up => (buf, line_up(buf, at)),
        Key::Down => (buf, line_down(buf, at)),
        _ => (buf, at),
    }
}

/// The focused buffer and its cursor after an editor key; nothing else
/// changes.
pub open spec fn typed(a: App, b: App, k: Key) -> bool {
    &&& if a.nav.focus == Focus::Title {
        (b.title@, b.title_at as int) == key_edited(a.title@, a.title_at as int, k, true) && b.body@ == a.body@
            && b.body_at == a.body_at
    } else {
        (b.body@, b.body_at as int) == key_edited(a.body@, a.body_at as int, k, false) && b.title@ == a.title@
            && b.title_at == a.title_at
    }
    &&& same_nav(a.nav, b.nav) && same_lists(a, b)
    &&& b.read_id@ == a.read_id@ && b.read_body@ == a.read_body@ && b.read_scroll == a.read_scroll
    &&& b.edit_orig_title@ == a.edit_orig_title@ && b.edit_orig_body@ == a.edit_orig_body@
    &&& b.edit_updated@ == a.edit_updated@ && b.edit_id@ == a.edit_id@ && b.edit_rev == a.edit_rev
    &&& b.hits == a.hits && b.p@ == a.p@ && b.status@ == a.status@ && b.changed == a.changed
}

/// A tab switch lands on the new tab's list (see `switched`), and then the
/// status line is cleared.
pub open spec fn lands_on_tab(a: App, t: Tab) -> bool {
    !(t == a.nav.tab && a.nav.mode == Mode::List) && !(a.nav.mode == Mode::Edit && dirty(a))
}

pub open spec fn tab_switched(a: App, b: App, t: Tab) -> bool {
    &&& switched(a.nav, b.nav, t, dirty(a))
    &&& b.status@ == (if lands_on_tab(a, t) { Seq::empty() } else { a.status@ })
    &&& same_lists(a, b) && same_detail(a, b) && b.p@ == a.p@ && b.changed == a.changed
}


// ------------------------------------------------------------ keys and clicks
/// The state with the navigation replaced.
pub open spec fn with_nav(a: App, n: Nav) -> App {
    App { nav: n, ..a }
}

/// The cursor kept within the visible rows.
pub open spec fn clamped_to_rows(a: App, b: App) -> bool {
    &&& b.nav.cursor@ == a.nav.cursor@.update(
        tab_index(a.nav.tab) as int,
        clamped(cur(a), 0, row_ids(a).len() as int) as usize,
    )
    &&& same_nav_but_cursor(a.nav, b.nav) && same_lists(a, b) && same_detail(a, b)
    &&& b.p@ == a.p@ && b.status@ == a.status@ && b.changed == a.changed
}

/// After a store change made from the editor, the editor takes the edited
/// todo's new `updated` stamp; elsewhere the detail and editor are kept.
pub open spec fn detail_after_change(a: App, b: App, from_editor: bool) -> bool {
    &&& b.read_id@ == a.read_id@ && b.read_body@ == a.read_body@ && b.read_scroll == a.read_scroll
    &&& b.title@ == a.title@ && b.body@ == a.body@ && b.title_at == a.title_at && b.body_at == a.body_at
    &&& b.edit_orig_title@ == a.edit_orig_title@ && b.edit_orig_body@ == a.edit_orig_body@
    &&& b.edit_id@ == a.edit_id@ && b.edit_rev == a.edit_rev && b.hits == a.hits
    &&& if from_editor && has_todo(b.p@.todos, a.edit_id@) {
        b.edit_updated@ == b.p@.todos[crate::todos::first_todo(b.p@.todos, a.edit_id@)].updated
    } else {
        b.edit_updated@ == a.edit_updated@
    }
}

/// What carrying out effect `e` does to the state `m` the navigation step
/// left (`k` is the key, `clear` whether the step cleared the status line,
/// `from_editor` whether it was taken in the editor).
pub open spec fn effect_done(m: App, e: Effect, k: Key, clear: bool, from_editor: bool, b: App, r: Request) -> bool {
    let st = if clear { Seq::empty() } else { m.status@ };
    match e {
        Effect::Nothing | Effect::Quit | Effect::Rerender => r is Nothing && only_store(m, b) && b.p@ == m.p@
            && b.changed == m.changed && b.status@ == st,
        Effect::Reload => r is Nothing && reloaded(m, b) && same_detail(m, b) && b.p@ == m.p@ && b.changed
            == m.changed && b.status@ == st,
        Effect::ToggleStatus => r is Nothing && (exists|x: Option<Result<Todo>>| #[trigger] toggle_store(
            m,
            b.p@,
            b.status@,
            b.changed,
            x,
        )) && reloaded(m, b) && detail_after_change(m, b, from_editor),
        Effect::CyclePriority => r is Nothing && (exists|x: Option<Result<Todo>>| #[trigger] cycle_store(
            m,
            b.p@,
            b.status@,
            b.changed,
            x,
        )) && reloaded(m, b) && detail_after_change(m, b, from_editor),
        Effect::Delete(id) => r is Nothing && (exists|x: Option<Result<()>>| #[trigger] delete_store(
            m,
            b.p@,
            b.status@,
            b.changed,
            id@,
            x,
        )) && reloaded(m, b) && same_detail(m, b),
        Effect::Open => opened(m, b, r),
        Effect::Edit => r is Nothing && edit_opened(m, b),
        Effect::EditNew => r is Nothing && new_opened(m, b),
        Effect::Clamp => r is Nothing && clamped_to_rows(m, b),
        Effect::Scroll(d) => r is Nothing && scrolled(m, b, d as int),
        Effect::Yank => unchanged(m, b) && match sel(m) {
            Some(id) => r matches Request::Copy(x) && x@ == id,
            None => r is Nothing,
        },
        Effect::Save => r is Nothing && saved(m, b),
        Effect::Forward => r is Nothing && typed(m, b, k),
    }
}

/// The navigation step a key takes in the current mode.
pub open spec fn nav_stepped(a: App, n: Nav, k: Key, e: Effect) -> bool {
    match a.nav.mode {
        Mode::List => list_step(a.nav, n, k, row_ids(a).len() as int, sel(a), e),
        Mode::Read => read_step(a.nav, n, k, a.hits.body_h, e),
        Mode::Confirm => confirm_step(a.nav, n, k, e),
        Mode::Edit => edit_step(a.nav, n, k, dirty(a), a.edit_id@.len() > 0, e),
        Mode::DiscardConfirm => discard_step(a.nav, n, k, e),
        Mode::Filter => filter_step(a.nav, n, k, e),
    }
}

/// Keys whose landing clears the status line: a tab switch from the list,
/// leaving the detail view, leaving a clean editor, a confirmed discard.
pub open spec fn key_clears(a: App, n: Nav, k: Key) -> bool {
    ||| a.nav.mode == Mode::List && n.tab != a.nav.tab
    ||| a.nav.mode == Mode::Read && (k == Key::Esc || k == Key::Char('q'))
    ||| a.nav.mode == Mode::Edit && k == Key::Esc && !dirty(a)
    ||| a.nav.mode == Mode::DiscardConfirm && k == Key::Char('y')
}

/// A key: the navigation steps as the current mode's step says, and the
/// effect it names is carried out.
pub open spec fn key_done(a: App, b: App, k: Key, r: Request) -> bool {
    exists|n: Nav, e: Effect| #[trigger] nav_stepped(a, n, k, e) && effect_done(
        with_nav(a, n),
        e,
        k,
        key_clears(a, n, k),
        a.nav.mode == Mode::Edit,
        b,
        r,
    )
}

/// The editor is on a stored item.
pub open spec fn on_saved_item(a: App) -> bool {
    a.edit_id@.len() > 0
}

/// Whether a click at (x, y) lands on another tab's list (clearing the status line).
pub open spec fn click_clears(a: App, x: u16, y: u16) -> bool {
    match tab_hit(a.hits.tabs@, a.hits.tab_row, x, y) {
        Some(t) => lands_on_tab(a, t),
        None => false,
    }
}

/// A left click: the navigation steps as `click_step` says, and the effect
/// it names is carried out.
pub open spec fn click_done(a: App, b: App, x: u16, y: u16, r: Request) -> bool {
    exists|n: Nav, e: Effect| #[trigger] click_step(
        a.nav,
        n,
        a.hits,
        x,
        y,
        row_ids(a).len() as int,
        dirty(a),
        on_saved_item(a),
        e,
    ) && effect_done(with_nav(a, n), e, Key::Other, click_clears(a, x, y), a.nav.mode == Mode::Edit, b, r)
}

/// The mouse wheel: a row down (or up) on a list, three lines in the
/// detail view; nothing elsewhere.
pub open spec fn wheeled(a: App, b: App, down: bool) -> bool {
    if a.nav.mode == Mode::List || a.nav.mode == Mode::Filter {
        &&& b.nav.cursor@ == a.nav.cursor@.update(
            tab_index(a.nav.tab) as int,
            clamped(cur(a), if down { 1 } else { -1 }, row_ids(a).len() as int) as usize,
        )
        &&& same_nav_but_cursor(a.nav, b.nav) && same_lists(a, b) && same_detail(a, b)
        &&& b.p@ == a.p@ && b.status@ == a.status@ && b.changed == a.changed
    } else if a.nav.mode == Mode::Read {
        scrolled(a, b, if down { 3 } else { -3 })
    } else {
        unchanged(a, b)
    }
}


/// The detail view's heading: the open item's title (a plan's path).
pub open spec fn read_title_of(a: App) -> Option<Seq<char>> {
    match a.nav.tab {
        Tab::Todos => match first_pos(todo_ids(views(a.todos@)), a.read_id@) {
            Some(i) => Some(views(a.todos@)[i].title),
            None => None,
        },
        Tab::Scratchpads => match first_pos(pad_ids(views(a.pads@)), a.read_id@) {
            Some(i) => Some(views(a.pads@)[i].title),
            None => None,
        },
        Tab::Plans => match first_pos(plan_ids(views(a.plans@)), a.read_id@) {
            Some(i) => Some(views(a.plans@)[i].rel_path),
            None => None,
        },
    }
}


fn line_start_exec(v: &Vec<char>, at: usize) -> (r: usize)
    requires
        at <= v.len(),
    ensures
        r == line_start(v@, at as int),
        r <= at,
{
    let mut i = at;
    while i > 0 && v[i - 1] != '\n'
        invariant
            i <= at <= v.len(),
            line_start(v@, i as int) == line_start(v@, at as int),
        decreases i,
    {
        i = i - 1;
    }
    i
}

fn line_end_exec(v: &Vec<char>, at: usize) -> (r: usize)
    requires
        at <= v.len(),
    ensures
        r == line_end(v@, at as int),
        at <= r <= v.len(),
{
    let mut i = at;
    while i < v.len() && v[i] != '\n'
        invariant
            at <= i <= v.len(),
            line_end(v@, i as int) == line_end(v@, at as int),
        decreases v.len() - i,
    {
        i = i + 1;
    }
    i
}

/// One editor key on a buffer and its cursor (see `key_edited`).
fn edit_chars(v: &Vec<char>, at0: usize, k: Key, one_line: bool) -> (r: (Vec<char>, usize))
    ensures
        (r.0@, r.1 as int) == key_edited(v@, at0 as int, k, one_line),
{
    let at = if at0 > v.len() { v.len() } else { at0 };
    let before = slice_chars(v, 0, at);
    let after = skip_chars(v, at);
    assert(before@ =~= v@.take(at as int));
    match k {
        Key::Char(c) => {
            let mut w = before;
            w.push(c);
            let nv = concat_chars(&w, &after);
            proof {
                vstd::std_specs::vec::axiom_spec_len(&nv);
            }
            (nv, at + 1)
        },
        Key::Enter => if one_line {
            (slice_chars(v, 0, v.len()), at)
        } else {
            let mut w = before;
            w.push('\n');
            let nv = concat_chars(&w, &after);
            proof {
                vstd::std_specs::vec::axiom_spec_len(&nv);
            }
            (nv, at + 1)
        },
        Key::Backspace => if at == 0 {
            (slice_chars(v, 0, v.len()), at)
        } else {
            let w = slice_chars(v, 0, at - 1);
            assert(w@ =~= v@.take(at - 1));
            (concat_chars(&w, &after), at - 1)
        },
        Key::Delete => if at == v.len() {
            (slice_chars(v, 0, v.len()), at)
        } else {
            let rest = skip_chars(v, at + 1);
            (concat_chars(&before, &rest), at)
        },
        Key::Left | Key::Ctrl('b') => (slice_chars(v, 0, v.len()), if at == 0 { 0 } else { at - 1 }),
        Key::Right | Key::Ctrl('f') => (slice_chars(v, 0, v.len()), if at == v.len() { at } else { at + 1 }),
        Key::Home | Key::Ctrl('a') => (slice_chars(v, 0, v.len()), line_start_exec(v, at)),
        Key::End | Key::Ctrl('e') => (slice_chars(v, 0, v.len()), line_end_exec(v, at)),
        Key::Up => {
            let ls = line_start_exec(v, at);
            let r = if ls == 0 {
                at
            } else {
                let ps = line_start_exec(v, ls - 1);
                if ps + (at - ls) > ls - 1 {
                    ls - 1
                } else {
                    ps + (at - ls)
                }
            };
            (slice_chars(v, 0, v.len()), r)
        },
        Key::Down => {
            let le = line_end_exec(v, at);
            let r = if le == v.len() {
                at
            } else {
                let ne = line_end_exec(v, le + 1);
                let col = at - line_start_exec(v, at);
                if col > ne - (le + 1) {
                    ne
                } else {
                    le + 1 + col
                }
            };
            (slice_chars(v, 0, v.len()), r)
        },
        _ => (slice_chars(v, 0, v.len()), at),
    }
}


/// A buffer and its cursor after pasting `text` at the cursor.
pub open spec fn pasted(buf: Seq<char>, at0: int, text: Seq<char>) -> (Seq<char>, int) {
    let at = within(at0, buf.len() as int);
    (buf.take(at) + text + buf.skip(at), at + text.len())
}

fn paste_chars(v: &Vec<char>, at0: usize, t: &Vec<char>) -> (r: (Vec<char>, usize))
    ensures
        (r.0@, r.1 as int) == pasted(v@, at0 as int, t@),
{
    let at = if at0 > v.len() { v.len() } else { at0 };
    let before = slice_chars(v, 0, at);
    let after = skip_chars(v, at);
    let w = concat_chars(&before, t);
    let nv = concat_chars(&w, &after);
    proof {
        vstd::std_specs::vec::axiom_spec_len(&nv);
    }
    assert(before@ =~= v@.take(at as int));
    (nv, at + t.len())
}


pub open spec fn is_newline() -> spec_fn(char) -> bool {
    |c: char| c == '\n'
}

/// The line and column a buffer's cursor stands on (both from zero).
pub fn cursor_line_col(buf: &str, at0: usize) -> (r: (usize, usize))
    ensures
        ({
            let at = within(at0 as int, buf@.len() as int);
            r.0 == count_where(buf@.take(at), is_newline()) && r.1 == at - line_start(buf@, at)
        }),
{
    let v = to_chars(buf);
    let at = if at0 > v.len() { v.len() } else { at0 };
    let ghost p = is_newline();
    let mut line: usize = 0;
    for i in 0..at
        invariant
            at <= v.len(),
            v@ == buf@,
            p == is_newline(),
            line == count_where(v@.take(i as int), p),
            line <= i,
    {
        proof {
            lemma_keep_step(v@, i as int, p);
        }
        if v[i] == '\n' {
            line = line + 1;
        }
    }
    let ls = line_start_exec(&v, at);
    (line, at - ls)
}

fn position(ids: &Vec<String>, id: &str) -> (r: Option<usize>)
    ensures
        r matches Some(i) ==> first_pos(ids.deep_view(), id@) == Some(i as int) && i < ids.len(),
        r is None ==> first_pos(ids.deep_view(), id@) is None,
{
    let ghost all = ids.deep_view();
    let idv = to_chars(id);
    let mut i: usize = 0;
    while i < ids.len()
        invariant
            all == ids.deep_view(),
            idv@ == id@,
            i <= ids.len(),
            first_pos(all.take(i as int), id@) is None,
        decreases ids.len() - i,
    {
        assert(all.take(i + 1).drop_last() =~= all.take(i as int));
        if eq_chars(&to_chars(ids[i].as_str()), &idv) {
            assert(first_pos(all.take(i + 1), id@) == Some(i as int));
            proof {
                lemma_first_pos_prefix(all, i as int + 1, id@);
            }
            return Some(i);
        }
        i = i + 1;
    }
    assert(all.take(ids.len() as int) =~= all);
    None
}

/// A first occurrence is a position of the list that holds the id.
pub proof fn lemma_first_pos(ids: Seq<Seq<char>>, id: Seq<char>)
    ensures
        first_pos(ids, id) matches Some(i) ==> 0 <= i < ids.len() && ids[i] == id,
    decreases ids.len(),
{
    if ids.len() > 0 {
        lemma_first_pos(ids.drop_last(), id);
    }
}

/// An id that occurs has a first occurrence.
pub proof fn lemma_first_pos_found(ids: Seq<Seq<char>>, id: Seq<char>, j: int)
    requires
        0 <= j < ids.len(),
        ids[j] == id,
    ensures
        first_pos(ids, id) is Some,
    decreases ids.len(),
{
    if j < ids.len() - 1 {
        lemma_first_pos_found(ids.drop_last(), id, j);
    }
}

/// The current tab's rows fit a `usize` count.
pub proof fn lemma_rows_fit(a: App)
    ensures
        row_ids(a).len() <= usize::MAX,
{
    vstd::std_specs::vec::axiom_spec_len(&a.todos);
    vstd::std_specs::vec::axiom_spec_len(&a.pads);
    vstd::std_specs::vec::axiom_spec_len(&a.plans);
    lemma_count_le(views(a.todos@), todo_shown(lower(a.nav.filter@)));
    lemma_count_le(views(a.pads@), pad_shown(lower(a.nav.filter@)));
    lemma_count_le(views(a.plans@), plan_shown(lower(a.nav.filter@)));
}

/// A first occurrence in a prefix is the first occurrence in the whole.
proof fn lemma_first_pos_prefix(ids: Seq<Seq<char>>, n: int, id: Seq<char>)
    requires
        0 <= n <= ids.len(),
        first_pos(ids.take(n), id) is Some,
    ensures
        first_pos(ids, id) == first_pos(ids.take(n), id),
    decreases ids.len() - n,
{
    if n < ids.len() {
        assert(ids.take(n + 1).drop_last() =~= ids.take(n));
        lemma_first_pos_prefix(ids, n + 1, id);
    } else {
        assert(ids.take(n) =~= ids);
    }
}

fn todo_id_list(v: &Vec<Todo>) -> (r: Vec<String>)
    ensures
        r.deep_view() == todo_ids(views(v@)),
{
    let mut out: Vec<String> = Vec::new();
    for i in 0..v.len()
        invariant
            out.deep_view() == todo_ids(views(v@)).take(i as int),
    {
        let ghost before = out.deep_view();
        let x = dup(&v[i].id);
        out.push(x);
        assert(out.deep_view() =~= before.push(x@));
        assert(out.deep_view() =~= todo_ids(views(v@)).take(i + 1));
    }
    assert(todo_ids(views(v@)).take(v.len() as int) =~= todo_ids(views(v@)));
    out
}

fn pad_id_list(v: &Vec<Scratchpad>) -> (r: Vec<String>)
    ensures
        r.deep_view() == pad_ids(views(v@)),
{
    let mut out: Vec<String> = Vec::new();
    for i in 0..v.len()
        invariant
            out.deep_view() == pad_ids(views(v@)).take(i as int),
    {
        let ghost before = out.deep_view();
        let x = dup(&v[i].id);
        out.push(x);
        assert(out.deep_view() =~= before.push(x@));
        assert(out.deep_view() =~= pad_ids(views(v@)).take(i + 1));
    }
    assert(pad_ids(views(v@)).take(v.len() as int) =~= pad_ids(views(v@)));
    out
}

fn plan_id_list(v: &Vec<Plan>) -> (r: Vec<String>)
    ensures
        r.deep_view() == plan_ids(views(v@)),
{
    let mut out: Vec<String> = Vec::new();
    for i in 0..v.len()
        invariant
            out.deep_view() == plan_ids(views(v@)).take(i as int),
    {
        let ghost before = out.deep_view();
        let x = dup(&v[i].abs_path);
        out.push(x);
        assert(out.deep_view() =~= before.push(x@));
        assert(out.deep_view() =~= plan_ids(views(v@)).take(i + 1));
    }
    assert(plan_ids(views(v@)).take(v.len() as int) =~= plan_ids(views(v@)));
    out
}

fn is_mode(a: Mode, b: Mode) -> (r: bool)
    ensures
        r == (a == b),
{
    match (a, b) {
        (Mode::List, Mode::List) => true,
        (Mode::Read, Mode::Read) => true,
        (Mode::Confirm, Mode::Confirm) => true,
        (Mode::Edit, Mode::Edit) => true,
        (Mode::DiscardConfirm, Mode::DiscardConfirm) => true,
        (Mode::Filter, Mode::Filter) => true,
        _ => false,
    }
}

fn is_tab(a: Tab, b: Tab) -> (r: bool)
    ensures
        r == (a == b),
{
    match (a, b) {
        (Tab::Todos, Tab::Todos) => true,
        (Tab::Scratchpads, Tab::Scratchpads) => true,
        (Tab::Plans, Tab::Plans) => true,
        _ => false,
    }
}

/// The todos that are not completed.
fn open_only(v: &Vec<Todo>) -> (r: Vec<Todo>)
    ensures
        views(r@) == keep(views(v@), not_completed()),
{
    let ghost all = views(v@);
    let ghost f = not_completed();
    let done = to_chars("completed");
    let mut out: Vec<Todo> = Vec::new();
    for i in 0..v.len()
        invariant
            all == views(v@),
            f == not_completed(),
            done@ == "completed"@,
            views(out@) == keep(all.take(i as int), f),
    {
        proof {
            lemma_keep_step(all, i as int, f);
        }
        if !eq_chars(&to_chars(v[i].status.as_str()), &done) {
            let ghost before = views(out@);
            let c = v[i].copy();
            out.push(c);
            assert(views(out@) =~= before.push(c@));
        }
    }
    proof {
        lemma_keep_all(all, f);
    }
    out
}

/// The ids of the rows that are blocked in the store.
fn blocked_ids(p: &Project, rows: &Vec<Todo>) -> (r: Vec<String>)
    ensures
        r.deep_view() == blocked_rows(p@, views(rows@)),
{
    let ghost all = views(rows@);
    let ghost f = blocked_in(p@.todos);
    let mut kept: Vec<Todo> = Vec::new();
    for i in 0..rows.len()
        invariant
            all == views(rows@),
            f == blocked_in(p@.todos),
            views(kept@) == keep(all.take(i as int), f),
    {
        proof {
            lemma_keep_step(all, i as int, f);
        }
        if p.is_blocked(&rows[i]) {
            let ghost before = views(kept@);
            let c = rows[i].copy();
            kept.push(c);
            assert(views(kept@) =~= before.push(c@));
        }
    }
    proof {
        lemma_keep_all(all, f);
    }
    todo_id_list(&kept)
}

impl App {
    /// Fresh panes on a tab, over a store; nothing is loaded yet.
    pub fn new(p: Project, initial: Tab) -> (a: App)
        ensures
            a.p@ == p@,
            a.nav.tab == initial,
            a.nav.mode == Mode::List,
            a.nav.cursor@ == seq![0usize, 0usize, 0usize],
            a.nav.filter@.len() == 0,
            !a.nav.hide_completed,
            !a.nav.quit,
            a.status@.len() == 0,
            a.todos@.len() == 0 && a.blocked@.len() == 0 && a.pads@.len() == 0 && a.plans@.len() == 0,
            a.read_id@.len() == 0 && a.read_body@.len() == 0 && a.read_scroll == 0,
            a.title@.len() == 0 && a.body@.len() == 0 && a.title_at == 0 && a.body_at == 0,
            a.edit_orig_title@.len() == 0 && a.edit_orig_body@.len() == 0,
            a.edit_updated@.len() == 0 && a.edit_id@.len() == 0 && a.edit_rev == 0,
            !a.changed,
    {
        App {
            p,
            nav: Nav::new(initial),
            status: String::new(),
            todos: Vec::new(),
            blocked: Vec::new(),
            pads: Vec::new(),
            plans: Vec::new(),
            read_id: String::new(),
            read_body: String::new(),
            read_scroll: 0,
            title: String::new(),
            body: String::new(),
            title_at: 0,
            body_at: 0,
            edit_orig_title: String::new(),
            edit_orig_body: String::new(),
            edit_updated: String::new(),
            edit_id: String::new(),
            edit_rev: 0,
            hits: Hits::empty(),
            changed: false,
        }
    }

    /// The Todos tab's rows under the filter.
    pub fn visible_todos(&self) -> (r: Vec<Todo>)
        ensures
            views(r@) == shown_todos(views(self.todos@), self.nav.filter@),
    {
        visible_todos(&self.todos, self.nav.filter.as_str())
    }

    /// The Scratchpads tab's rows under the filter.
    pub fn visible_pads(&self) -> (r: Vec<Scratchpad>)
        ensures
            views(r@) == shown_pads(views(self.pads@), self.nav.filter@),
    {
        visible_pads(&self.pads, self.nav.filter.as_str())
    }

    /// The Plans tab's rows under the filter.
    pub fn visible_plans(&self) -> (r: Vec<Plan>)
        ensures
            views(r@) == shown_plans(views(self.plans@), self.nav.filter@),
    {
        visible_plans(&self.plans, self.nav.filter.as_str())
    }

    /// The ids of the current tab's visible rows.
    fn row_id_list(&self) -> (r: Vec<String>)
        ensures
            r.deep_view() == row_ids(*self),
    {
        match self.nav.tab {
            Tab::Todos => todo_id_list(&self.visible_todos()),
            Tab::Scratchpads => pad_id_list(&self.visible_pads()),
            Tab::Plans => plan_id_list(&self.visible_plans()),
        }
    }

    /// How many rows the current tab shows.
    pub fn count(&self) -> (n: usize)
        ensures
            n == row_ids(*self).len(),
    {
        self.row_id_list().len()
    }

    /// The id of the selected row (a plan's path), if the cursor is on one.
    pub fn selected_id(&self) -> (r: Option<String>)
        ensures
            r.deep_view() == sel(*self),
    {
        let ids = self.row_id_list();
        let c = self.nav.current();
        if c < ids.len() {
            Some(dup(&ids[c]))
        } else {
            None
        }
    }

    /// Moves the cursor by `d` rows within the visible rows.
    pub fn move_cursor(&mut self, d: i64)
        ensures
            final(self).nav.cursor@ == old(self).nav.cursor@.update(
                tab_index(old(self).nav.tab) as int,
                clamped(cur(*old(self)), d as int, row_ids(*old(self)).len() as int) as usize,
            ),
            same_nav_but_cursor(old(self).nav, final(self).nav),
            final(self).p@ == old(self).p@,
            final(self).status@ == old(self).status@,
            same_lists(*old(self), *final(self)),
            same_detail(*old(self), *final(self)),
            final(self).changed == old(self).changed,
    {
        let n = self.count();
        self.nav.move_cursor(n, d);
    }
}

impl App {
    /// What a reload keeps the cursor on.
    fn pin_target_exec(&self) -> (r: Option<String>)
        ensures
            r.deep_view() == pin_target(*self),
    {
        let m = self.nav.mode;
        if (is_mode(m, Mode::Read) || is_mode(m, Mode::Edit) || is_mode(m, Mode::DiscardConfirm))
            && !crate::text::is_blank(self.read_id.as_str()) {
            Some(dup(&self.read_id))
        } else if is_mode(m, Mode::List) {
            self.selected_id()
        } else {
            None
        }
    }

    /// Keeps the cursor within the visible rows.
    pub fn clamp_cursor(&mut self)
        ensures
            final(self).nav.cursor@ == old(self).nav.cursor@.update(
                tab_index(old(self).nav.tab) as int,
                clamped(cur(*old(self)), 0, row_ids(*old(self)).len() as int) as usize,
            ),
            same_nav_but_cursor(old(self).nav, final(self).nav),
            final(self).p@ == old(self).p@,
            final(self).status@ == old(self).status@,
            same_lists(*old(self), *final(self)),
            same_detail(*old(self), *final(self)),
            final(self).changed == old(self).changed,
    {
        self.move_cursor(0);
    }

    /// Puts the cursor on the first visible row with this id (a plan's
    /// path), if there is one.
    pub fn pin_cursor_to(&mut self, id: &str)
        ensures
            final(self).nav.cursor@ == old(self).nav.cursor@.update(
                tab_index(old(self).nav.tab) as int,
                pinned(cur(*old(self)), row_ids(*old(self)), Some(id@)) as usize,
            ),
            same_nav_but_cursor(old(self).nav, final(self).nav),
            final(self).p@ == old(self).p@,
            final(self).status@ == old(self).status@,
            same_lists(*old(self), *final(self)),
            same_detail(*old(self), *final(self)),
            final(self).changed == old(self).changed,
    {
        let ids = self.row_id_list();
        match position(&ids, id) {
            Some(i) => {
                let t = self.nav.tab.idx();
                self.nav.cursor.set(t, i);
            },
            None => {
                assert(self.nav.cursor@ =~= self.nav.cursor@.update(
                    tab_index(self.nav.tab) as int,
                    self.nav.cursor@[tab_index(self.nav.tab) as int],
                ));
            },
        }
    }

    fn load(&mut self, plans: Option<Vec<Plan>>)
        ensures
            reloaded_with(*old(self), *final(self), match plans {
                Some(v) => views(v@),
                None => views(old(self).plans@),
            }),
            final(self).p@ == old(self).p@,
            final(self).status@ == old(self).status@,
            same_detail(*old(self), *final(self)),
            final(self).changed == old(self).changed,
    {
        let ghost pre = *self;
        let target = self.pin_target_exec();
        let f = TodoFilter {
            status: String::new(),
            completed: None,
            is_blocked: None,
            priority: String::new(),
            query: String::new(),
            tags: Vec::new(),
            sort: from_chars(&to_chars("priority")),
            offset: 0,
            limit: 0,
        };
        assert(f@.tags =~= Seq::<Seq<char>>::empty());
        assert(f@ == by_priority());
        let all = match self.p.list_todos(f) {
            Ok(v) => v,
            Err(_) => Vec::new(),
        };
        let rows = if self.nav.hide_completed {
            open_only(&all)
        } else {
            all
        };
        let blocked = blocked_ids(&self.p, &rows);
        self.todos = rows;
        self.blocked = blocked;
        let no_tags: Vec<String> = Vec::new();
        assert(no_tags.deep_view() =~= Seq::<Seq<char>>::empty());
        proof {
            reveal_strlit("");
        }
        assert(""@ =~= Seq::<char>::empty());
        let pads = match self.p.list_scratchpads(&no_tags, "", false, 0, 0) {
            Ok(v) => v,
            Err(_) => Vec::new(),
        };
        self.pads = pads;
        match plans {
            Some(v) => {
                self.plans = v;
            },
            None => {},
        }
        let ghost mid = *self;
        proof {
            lemma_first_pos(row_ids(mid), pin_target(pre)->0);
        }
        match target {
            Some(id) => {
                self.pin_cursor_to(id.as_str());
            },
            None => {
                assert(self.nav.cursor@ =~= self.nav.cursor@.update(
                    tab_index(self.nav.tab) as int,
                    self.nav.cursor@[tab_index(self.nav.tab) as int],
                ));
            },
        }
        self.clamp_cursor();
        assert(row_ids(*self) == row_ids(mid));
        assert(self.nav.cursor@ == pre.nav.cursor@.update(
            tab_index(pre.nav.tab) as int,
            clamped(pinned(cur(pre), row_ids(*self), pin_target(pre)), 0, row_ids(*self).len() as int) as usize,
        ));
    }

    /// Reads the todo and scratchpad lists from the store again, keeping
    /// the cursor on the open item (or the selected row).
    pub fn refresh(&mut self)
        ensures
            reloaded(*old(self), *final(self)),
            final(self).p@ == old(self).p@,
            final(self).status@ == old(self).status@,
            same_detail(*old(self), *final(self)),
            final(self).changed == old(self).changed,
    {
        self.load(None);
    }

    /// Takes a freshly walked plan list and reads the other lists from the
    /// store again, keeping the cursor on the open item (or the selected
    /// row).
    pub fn reload(&mut self, plans: Vec<Plan>)
        ensures
            reloaded_with(*old(self), *final(self), views(plans@)),
            final(self).p@ == old(self).p@,
            final(self).status@ == old(self).status@,
            same_detail(*old(self), *final(self)),
            final(self).changed == old(self).changed,
    {
        self.load(Some(plans));
    }
}


impl App {
    /// The todo under the Todos tab's cursor.
    pub fn todo_at_cursor(&self) -> (r: Option<Todo>)
        ensures
            match todo_under_cursor(*self) {
                Some(t) => r matches Some(x) && x@ == t,
                None => r is None,
            },
    {
        let v = self.visible_todos();
        let c = self.nav.cursor[0];
        if c < v.len() {
            Some(v[c].copy())
        } else {
            None
        }
    }

    /// Completes the todo under the cursor, or reopens it when it is
    /// completed; a failure goes to the status line.
    pub fn toggle_status(&mut self) -> (r: Option<Result<Todo>>)
        ensures
            toggled(*old(self), *final(self), r),
    {
        let t = match self.todo_at_cursor() {
            Some(t) => t,
            None => return None,
        };
        let done = crate::text::is_text(t.status.as_str(), "completed");
        proof {
            reveal_strlit("completed");
        }
        let r = if done {
            self.p.incomplete_todo(t.id.as_str(), false)
        } else {
            self.p.complete_todo(t.id.as_str(), false)
        };
        self.changed = true;
        match &r {
            Ok(_) => {},
            Err(e) => {
                self.status = cat("status change failed: ", e.message().as_str());
            },
        }
        proof {
            reveal_strlit("status change failed: ");
            reveal_strlit("status change");
            reveal_strlit(" failed: ");
            assert("status change failed: "@ =~= "status change"@ + " failed: "@);
        }
        Some(r)
    }

    /// Moves the todo under the cursor to its next priority; a failure goes
    /// to the status line.
    pub fn cycle_priority(&mut self) -> (r: Option<Result<Todo>>)
        ensures
            cycled(*old(self), *final(self), r),
    {
        let t = match self.todo_at_cursor() {
            Some(t) => t,
            None => return None,
        };
        let next = next_priority(t.priority.as_str());
        let u = TodoUpdate {
            title: None,
            body: None,
            priority: Some(from_chars(&to_chars(next))),
            status: None,
            tags: None,
            expected_updated: None,
        };
        assert(u@ == prio_update(t@.priority));
        let r = self.p.update_todo(t.id.as_str(), u);
        self.changed = true;
        match &r {
            Ok(_) => {},
            Err(e) => {
                self.status = cat("priority change failed: ", e.message().as_str());
            },
        }
        proof {
            reveal_strlit("priority change failed: ");
            reveal_strlit("priority change");
            reveal_strlit(" failed: ");
            assert("priority change failed: "@ =~= "priority change"@ + " failed: "@);
        }
        Some(r)
    }

    /// Deletes `id` after a confirmed delete: a todo outright, a pad against
    /// the revision its row was loaded with; a failure goes to the status
    /// line.
    pub fn delete_item(&mut self, id: &str) -> (r: Option<Result<()>>)
        ensures
            deleted(*old(self), *final(self), id@, r),
    {
        if is_blank(id) {
            return None;
        }
        proof {
            reveal_strlit(" failed: ");
            reveal_strlit("delete");
            reveal_strlit("delete failed: ");
            assert("delete failed: "@ =~= "delete"@ + " failed: "@);
        }
        if is_tab(self.nav.tab, Tab::Todos) {
            let r = self.p.delete_todo(id);
            self.changed = true;
            match &r {
                Ok(_) => {},
                Err(e) => {
                    self.status = cat("delete failed: ", e.message().as_str());
                },
            }
            return Some(r);
        }
        let ids = pad_id_list(&self.pads);
        let rev = match position(&ids, id) {
            Some(i) => {
                assert(views(self.pads@)[i as int] == self.pads@[i as int]@);
                self.pads[i].revision
            },
            None => {
                proof {
                    reveal_strlit("delete failed: no revision for ");
                }
                self.status = cat("delete failed: no revision for ", id);
                return None;
            },
        };
        let r = self.p.delete_scratchpad(id, rev);
        self.changed = true;
        match &r {
            Ok(_) => {},
            Err(e) => {
                self.status = cat("delete failed: ", e.message().as_str());
            },
        }
        Some(r)
    }

    /// Scrolls the detail view by `d` lines, not above the top.
    pub fn scroll_read(&mut self, d: i32)
        ensures
            scrolled(*old(self), *final(self), d as int),
    {
        let v: i64 = self.read_scroll as i64 + d as i64;
        let w: i64 = if v < 0 { 0 } else { v };
        self.read_scroll = w as u16;
    }

    /// The editor holds changes.
    pub fn edit_dirty(&self) -> (b: bool)
        ensures
            b == dirty(*self),
    {
        !eq_chars(&to_chars(self.title.as_str()), &to_chars(self.edit_orig_title.as_str()))
            || !eq_chars(&to_chars(self.body.as_str()), &to_chars(self.edit_orig_body.as_str()))
    }

    /// Reports a clipboard copy on the status line.
    pub fn copied(&mut self, id: &str, failure: Option<String>)
        ensures
            final(self).status@ == match failure {
                None => "copied "@ + id@ + " to clipboard"@,
                Some(e) => "copy failed: "@ + e@,
            },
            only_store(*old(self), *final(self)),
            final(self).p@ == old(self).p@,
            final(self).changed == old(self).changed,
    {
        self.status = match failure {
            None => cat(cat("copied ", id).as_str(), " to clipboard"),
            Some(e) => cat("copy failed: ", e.as_str()),
        };
    }
}


impl App {
    /// Opens the selected row in the detail view (see `opened`).
    pub fn enter_read(&mut self) -> (r: Request)
        ensures
            opened(*old(self), *final(self), r),
    {
        let id = match self.selected_id() {
            Some(id) => id,
            None => return Request::Nothing,
        };
        if is_tab(self.nav.tab, Tab::Plans) {
            return Request::ReadPlan(id);
        }
        if is_tab(self.nav.tab, Tab::Todos) {
            match self.todo_at_cursor() {
                Some(t) => {
                    self.show(id, dup(&t.body));
                },
                None => {
                    self.nav.mode = Mode::List;
                },
            }
            return Request::Nothing;
        }
        proof {
            reveal_strlit("full");
            reveal_strlit("");
        }
        match self.p.read_scratchpad(id.as_str(), "full", "", 0, 0) {
            Ok((s, _)) => {
                self.show(id, dup(&s.content));
            },
            Err(e) => {
                self.status = cat("read failed: ", e.message().as_str());
                self.nav.mode = Mode::List;
            },
        }
        Request::Nothing
    }

    fn show(&mut self, id: String, body: String)
        ensures
            reading(*old(self), *final(self), id@, body@),
    {
        self.read_id = id;
        self.read_body = body;
        self.read_scroll = 0;
        self.nav.mode = Mode::Read;
    }

    /// Shows a plan file the driver read (or the reason it could not).
    pub fn open_plan(&mut self, path: String, body: core::result::Result<String, String>)
        ensures
            match body {
                Ok(b) => reading(*old(self), *final(self), path@, b@),
                Err(e) => read_failed(*old(self), *final(self), e@),
            },
    {
        match body {
            Ok(b) => self.show(path, b),
            Err(e) => {
                self.status = cat("read failed: ", e.as_str());
                self.nav.mode = Mode::List;
            },
        }
    }

    /// Opens the editor on the selected row (see `edit_opened`).
    pub fn begin_edit(&mut self)
        ensures
            edit_opened(*old(self), *final(self)),
    {
        let id = match self.selected_id() {
            Some(id) => id,
            None => return,
        };
        let (title, body) = if is_tab(self.nav.tab, Tab::Todos) {
            let ids = todo_id_list(&self.todos);
            match position(&ids, id.as_str()) {
                Some(i) => {
                    assert(views(self.todos@)[i as int] == self.todos@[i as int]@);
                    self.edit_updated = dup(&self.todos[i].updated);
                    (dup(&self.todos[i].title), dup(&self.todos[i].body))
                },
                None => return,
            }
        } else {
            proof {
                reveal_strlit("full");
                reveal_strlit("");
            }
            match self.p.read_scratchpad(id.as_str(), "full", "", 0, 0) {
                Ok((s, _)) => {
                    self.edit_rev = s.revision;
                    (dup(&s.title), dup(&s.content))
                },
                Err(e) => {
                    self.status = cat("open failed: ", e.message().as_str());
                    proof {
                        reveal_strlit("open failed: ");
                        reveal_strlit("open failed: not found");
                        reveal_strlit("not found");
                        assert("open failed: not found"@ =~= "open failed: "@ + "not found"@);
                    }
                    return;
                },
            }
        };
        self.edit_orig_title = dup(&title);
        self.edit_orig_body = dup(&body);
        self.title = title;
        self.body = body;
        self.title_at = 0;
        self.body_at = 0;
        self.nav.focus = crate::tui::Focus::Body;
        self.edit_id = dup(&id);
        self.read_id = id;
        self.nav.edit_return = self.nav.mode;
        self.status = String::new();
        self.nav.mode = Mode::Edit;
    }

    /// Opens the editor on a new, unsaved item.
    pub fn begin_edit_new(&mut self)
        ensures
            new_opened(*old(self), *final(self)),
    {
        self.title = String::new();
        self.body = String::new();
        self.title_at = 0;
        self.body_at = 0;
        self.nav.focus = crate::tui::Focus::Title;
        self.edit_orig_title = String::new();
        self.edit_orig_body = String::new();
        self.edit_updated = String::new();
        self.edit_rev = 0;
        self.edit_id = String::new();
        self.read_id = String::new();
        self.nav.edit_return = Mode::List;
        self.status = String::new();
        self.nav.mode = Mode::Edit;
    }

    /// Leaves the editor without saving, back where it was opened.
    pub fn exit_edit(&mut self)
        ensures
            final(self).status@.len() == 0,
            in_mode(old(self).nav, final(self).nav, old(self).nav.edit_return),
            same_lists(*old(self), *final(self)),
            same_detail(*old(self), *final(self)),
            final(self).p@ == old(self).p@,
            final(self).changed == old(self).changed,
    {
        self.status = String::new();
        self.nav.mode = self.nav.edit_return;
    }

    /// Takes the edited todo's current `updated` stamp after the editor's own
    /// priority or status change, so the save's guard does not trip on it.
    pub fn refresh_edit_updated(&mut self)
        ensures
            has_todo(old(self).p@.todos, old(self).edit_id@) ==> final(self).edit_updated@
                == old(self).p@.todos[crate::todos::first_todo(old(self).p@.todos, old(self).edit_id@)].updated,
            !has_todo(old(self).p@.todos, old(self).edit_id@) ==> final(self).edit_updated@ == old(self).edit_updated@,
            same_nav(old(self).nav, final(self).nav),
            same_lists(*old(self), *final(self)),
            final(self).p@ == old(self).p@,
            final(self).status@ == old(self).status@,
            final(self).changed == old(self).changed,
            final(self).read_id@ == old(self).read_id@ && final(self).read_body@ == old(self).read_body@,
            final(self).read_scroll == old(self).read_scroll && final(self).hits == old(self).hits,
            final(self).title@ == old(self).title@ && final(self).body@ == old(self).body@,
            final(self).title_at == old(self).title_at && final(self).body_at == old(self).body_at,
            final(self).edit_orig_title@ == old(self).edit_orig_title@,
            final(self).edit_orig_body@ == old(self).edit_orig_body@,
            final(self).edit_id@ == old(self).edit_id@ && final(self).edit_rev == old(self).edit_rev,
    {
        match self.p.get_todo(self.edit_id.as_str()) {
            Ok(t) => {
                self.edit_updated = t.updated;
            },
            Err(_) => {},
        }
    }
}


impl App {
    fn land(&mut self, m: Mode, body: String)
        requires
            body@ == old(self).body@,
        ensures
            landed(*old(self), *final(self), m),
            final(self).p@ == old(self).p@,
    {
        self.status = String::new();
        self.nav.mode = m;
        if is_mode(m, Mode::Read) {
            self.read_body = body;
        }
        self.changed = true;
        self.refresh();
    }

    /// Saves the editor's buffers (see `saved`).
    pub fn save_edit(&mut self)
        ensures
            saved(*old(self), *final(self)),
    {
        let title = collapse_title(self.title.as_str());
        let body = dup(&self.body);
        proof {
            reveal_strlit(" ");
            reveal_strlit("save failed: ");
        }
        if is_blank(self.edit_id.as_str()) {
            self.save_new(title, body);
            return;
        }
        if is_tab(self.nav.tab, Tab::Todos) {
            let u = TodoUpdate {
                title: Some(title),
                body: Some(dup(&body)),
                priority: None,
                status: None,
                tags: None,
                expected_updated: Some(dup(&self.edit_updated)),
            };
            assert(u@ == save_update(*old(self)));
            let r = self.p.update_todo(self.edit_id.as_str(), u);
            match &r {
                Ok(_) => {
                    let m = self.nav.edit_return;
                    self.land(m, body);
                },
                Err(e) => {
                    self.status = cat("save failed: ", e.message().as_str());
                },
            }
            assert(edit_outcome(
                old(self).p@,
                self.p@,
                old(self).edit_id@,
                r,
                update_check(save_update(*old(self))),
                updated_with(save_update(*old(self))),
            ));
            return;
        }
        if !self.p.pad_room(self.edit_id.as_str()) {
            proof {
                reveal_strlit("save failed: scratchpad is too large to change");
            }
            self.status = from_chars(&to_chars("save failed: scratchpad is too large to change"));
            return;
        }
        let r = self.p.update_scratchpad(self.edit_id.as_str(), self.edit_rev, Some(title.as_str()), Some(body.as_str()), None);
        match &r {
            Ok(_) => {
                let m = self.nav.edit_return;
                self.land(m, body);
            },
            Err(e) => {
                self.status = cat("save failed: ", e.message().as_str());
            },
        }
        assert(pad_outcome(
            old(self).p@,
            self.p@,
            old(self).edit_id@,
            old(self).edit_rev as int,
            r,
            pad_never_refused(),
            pad_updated(Some(saved_title(*old(self))), Some(old(self).body@), None),
        ));
    }

    fn save_new(&mut self, title: String, body: String)
        requires
            title@ == saved_title(*old(self)),
            body@ == old(self).body@,
            old(self).edit_id@.len() == 0,
        ensures
            saved(*old(self), *final(self)),
    {
        if is_blank(title.as_str()) {
            proof {
                reveal_strlit("title required");
            }
            self.status = from_chars(&to_chars("title required"));
            return;
        }
        proof {
            reveal_strlit("");
            reveal_strlit("medium");
        }
        if is_tab(self.nav.tab, Tab::Todos) {
            let tags: Vec<String> = Vec::new();
            assert(tags.deep_view() =~= Seq::<Seq<char>>::empty());
            let r = self.p.create_todo(title.as_str(), body.as_str(), "", tags);
            match r {
                Ok(t) => {
                    assert(fresh_todo(t@, saved_title(*old(self)), old(self).body@, "medium"@, Seq::empty(), old(self).p@.actor));
                },
                Err(e) => {
                    self.status = cat("create failed: ", e.message().as_str());
                    return;
                },
            }
        } else {
            let tags: Vec<String> = Vec::new();
            assert(tags.deep_view() =~= Seq::<Seq<char>>::empty());
            let r = self.p.create_scratchpad(title.as_str(), body.as_str(), tags);
            match r {
                Ok(s) => {
                    assert(fresh_pad(s@, saved_title(*old(self)), old(self).body@, Seq::empty(), old(self).p@.actor));
                },
                Err(e) => {
                    self.status = cat("create failed: ", e.message().as_str());
                    return;
                },
            }
        }
        self.land(Mode::List, body);
    }

    /// A key for the editor's focused buffer (see `typed`).
    pub fn edit_key(&mut self, k: Key)
        ensures
            typed(*old(self), *final(self), k),
    {
        let title = match self.nav.focus {
            Focus::Title => true,
            Focus::Body => false,
        };
        let (v, at) = if title {
            (to_chars(self.title.as_str()), self.title_at)
        } else {
            (to_chars(self.body.as_str()), self.body_at)
        };
        let (nv, cursor) = edit_chars(&v, at, k, title);
        if title {
            self.title = from_chars(&nv);
            self.title_at = cursor;
        } else {
            self.body = from_chars(&nv);
            self.body_at = cursor;
        }
    }

    /// Pasted text goes in at the focused buffer's cursor (only while
    /// editing).
    pub fn on_paste(&mut self, text: &str)
        ensures
            old(self).nav.mode == Mode::Edit && old(self).nav.focus == Focus::Title ==> (final(self).title@, final(self).title_at as int)
                == pasted(old(self).title@, old(self).title_at as int, text@) && final(self).body@ == old(self).body@
                && final(self).body_at == old(self).body_at,
            old(self).nav.mode == Mode::Edit && old(self).nav.focus == Focus::Body ==> (final(self).body@, final(self).body_at as int)
                == pasted(old(self).body@, old(self).body_at as int, text@) && final(self).title@ == old(self).title@
                && final(self).title_at == old(self).title_at,
            old(self).nav.mode != Mode::Edit ==> final(self).title@ == old(self).title@ && final(self).body@
                == old(self).body@ && final(self).title_at == old(self).title_at && final(self).body_at
                == old(self).body_at,
            same_nav(old(self).nav, final(self).nav),
            same_lists(*old(self), *final(self)),
            final(self).read_id@ == old(self).read_id@ && final(self).read_body@ == old(self).read_body@,
            final(self).read_scroll == old(self).read_scroll && final(self).hits == old(self).hits,
            final(self).edit_orig_title@ == old(self).edit_orig_title@,
            final(self).edit_orig_body@ == old(self).edit_orig_body@,
            final(self).edit_updated@ == old(self).edit_updated@ && final(self).edit_id@ == old(self).edit_id@,
            final(self).edit_rev == old(self).edit_rev,
            final(self).p@ == old(self).p@ && final(self).status@ == old(self).status@,
            final(self).changed == old(self).changed,
    {
        if !is_mode(self.nav.mode, Mode::Edit) {
            return;
        }
        let t = to_chars(text);
        match self.nav.focus {
            Focus::Title => {
                let (v, at) = paste_chars(&to_chars(self.title.as_str()), self.title_at, &t);
                self.title = from_chars(&v);
                self.title_at = at;
            },
            Focus::Body => {
                let (v, at) = paste_chars(&to_chars(self.body.as_str()), self.body_at, &t);
                self.body = from_chars(&v);
                self.body_at = at;
            },
        }
    }

    /// Moves to another tab (see `tab_switched`).
    pub fn switch_tab(&mut self, t: Tab)
        ensures
            tab_switched(*old(self), *final(self), t),
    {
        let d = self.edit_dirty();
        let lands = !(is_tab(t, self.nav.tab) && is_mode(self.nav.mode, Mode::List)) && !(is_mode(
            self.nav.mode,
            Mode::Edit,
        ) && d);
        self.nav.switch_tab(t, d);
        if lands {
            self.status = String::new();
        }
    }
}


impl App {
    fn apply_toggle(&mut self, from_editor: bool)
        ensures
            exists|x: Option<Result<Todo>>| #[trigger] toggle_store(*old(self), final(self).p@, final(self).status@, final(self).changed, x),
            reloaded(*old(self), *final(self)),
            detail_after_change(*old(self), *final(self), from_editor),
    {
        let x = self.toggle_status();
        if from_editor {
            self.refresh_edit_updated();
        }
        self.refresh();
        assert(toggle_store(*old(self), self.p@, self.status@, self.changed, x));
    }

    fn apply_cycle(&mut self, from_editor: bool)
        ensures
            exists|x: Option<Result<Todo>>| #[trigger] cycle_store(*old(self), final(self).p@, final(self).status@, final(self).changed, x),
            reloaded(*old(self), *final(self)),
            detail_after_change(*old(self), *final(self), from_editor),
    {
        let x = self.cycle_priority();
        if from_editor {
            self.refresh_edit_updated();
        }
        self.refresh();
        assert(cycle_store(*old(self), self.p@, self.status@, self.changed, x));
    }

    fn apply_delete(&mut self, id: &str)
        ensures
            exists|x: Option<Result<()>>| #[trigger] delete_store(*old(self), final(self).p@, final(self).status@, final(self).changed, id@, x),
            reloaded(*old(self), *final(self)),
            same_detail(*old(self), *final(self)),
    {
        let x = self.delete_item(id);
        self.refresh();
        assert(delete_store(*old(self), self.p@, self.status@, self.changed, id@, x));
    }

    /// Carries out the effect a navigation step named.
    fn apply(&mut self, e: Effect, k: Key, clear: bool, from_editor: bool) -> (r: Request)
        ensures
            effect_done(*old(self), e, k, clear, from_editor, *final(self), r),
    {
        match e {
            Effect::Nothing | Effect::Quit | Effect::Rerender => {
                if clear {
                    self.status = String::new();
                }
                Request::Nothing
            },
            Effect::Reload => {
                if clear {
                    self.status = String::new();
                }
                self.refresh();
                Request::Nothing
            },
            Effect::ToggleStatus => {
                self.apply_toggle(from_editor);
                Request::Nothing
            },
            Effect::CyclePriority => {
                self.apply_cycle(from_editor);
                Request::Nothing
            },
            Effect::Delete(id) => {
                self.apply_delete(id.as_str());
                Request::Nothing
            },
            Effect::Open => self.enter_read(),
            Effect::Edit => {
                self.begin_edit();
                Request::Nothing
            },
            Effect::EditNew => {
                self.begin_edit_new();
                Request::Nothing
            },
            Effect::Clamp => {
                self.clamp_cursor();
                Request::Nothing
            },
            Effect::Scroll(d) => {
                self.scroll_read(d);
                Request::Nothing
            },
            Effect::Yank => match self.selected_id() {
                Some(id) => Request::Copy(id),
                None => Request::Nothing,
            },
            Effect::Save => {
                self.save_edit();
                Request::Nothing
            },
            Effect::Forward => {
                self.edit_key(k);
                Request::Nothing
            },
        }
    }

    /// A key (see `key_done`).
    pub fn on_key(&mut self, k: Key) -> (r: Request)
        ensures
            key_done(*old(self), *final(self), k, r),
    {
        let ghost a = *self;
        let mode = self.nav.mode;
        let tab = self.nav.tab;
        let d = self.edit_dirty();
        let e = match mode {
            Mode::List => {
                let n = self.count();
                let s = self.selected_id();
                self.nav.key_list(k, n, s)
            },
            Mode::Read => {
                let page = self.hits.body_h;
                self.nav.key_read(k, page)
            },
            Mode::Confirm => self.nav.key_confirm(k),
            Mode::Edit => {
                let saved_item = !is_blank(self.edit_id.as_str());
                self.nav.key_edit(k, d, saved_item)
            },
            Mode::DiscardConfirm => self.nav.key_discard_confirm(k),
            Mode::Filter => self.nav.key_filter(k),
        };
        let ghost n = self.nav;
        let clear = match mode {
            Mode::List => !is_tab(self.nav.tab, tab),
            Mode::Read => k == Key::Esc || k == Key::Char('q'),
            Mode::Edit => k == Key::Esc && !d,
            Mode::DiscardConfirm => k == Key::Char('y'),
            _ => false,
        };
        assert(nav_stepped(a, n, k, e));
        assert(*self == with_nav(a, n));
        let from_editor = is_mode(mode, Mode::Edit);
        let r = self.apply(e, k, clear, from_editor);
        assert(nav_stepped(a, n, k, e) && effect_done(with_nav(a, n), e, k, key_clears(a, n, k), a.nav.mode == Mode::Edit, *self, r));
        r
    }

    /// A left click at (x, y) (see `click_done`).
    pub fn on_click(&mut self, x: u16, y: u16) -> (r: Request)
        ensures
            click_done(*old(self), *final(self), x, y, r),
    {
        let ghost a = *self;
        let n = self.count();
        let d = self.edit_dirty();
        let saved_item = !is_blank(self.edit_id.as_str());
        let clear = match self.hits.tab_at(x, y) {
            Some(t) => !(is_tab(t, self.nav.tab) && is_mode(self.nav.mode, Mode::List)) && !(is_mode(self.nav.mode, Mode::Edit) && d),
            None => false,
        };
        let from_editor = is_mode(self.nav.mode, Mode::Edit);
        let e = self.nav.click(&self.hits, x, y, n, d, saved_item);
        let ghost nv = self.nav;
        assert(*self == with_nav(a, nv));
        let r = self.apply(e, Key::Other, clear, from_editor);
        assert(click_step(a.nav, nv, a.hits, x, y, row_ids(a).len() as int, dirty(a), on_saved_item(a), e)
            && effect_done(with_nav(a, nv), e, Key::Other, click_clears(a, x, y), a.nav.mode == Mode::Edit, *self, r));
        r
    }

    /// The mouse wheel (see `wheeled`).
    pub fn on_wheel(&mut self, down: bool)
        ensures
            wheeled(*old(self), *final(self), down),
    {
        let m = self.nav.mode;
        if is_mode(m, Mode::List) || is_mode(m, Mode::Filter) {
            self.move_cursor(if down { 1 } else { -1 });
        } else if is_mode(m, Mode::Read) {
            self.scroll_read(if down { 3 } else { -3 });
        }
    }
}


impl App {
    /// The detail view's heading (see `read_title_of`).
    pub fn read_title(&self) -> (r: Option<String>)
        ensures
            r.deep_view() == read_title_of(*self),
    {
        match self.nav.tab {
            Tab::Todos => {
                let ids = todo_id_list(&self.todos);
                match position(&ids, self.read_id.as_str()) {
                    Some(i) => {
                        assert(views(self.todos@)[i as int] == self.todos@[i as int]@);
                        Some(dup(&self.todos[i].title))
                    },
                    None => None,
                }
            },
            Tab::Scratchpads => {
                let ids = pad_id_list(&self.pads);
                match position(&ids, self.read_id.as_str()) {
                    Some(i) => {
                        assert(views(self.pads@)[i as int] == self.pads@[i as int]@);
                        Some(dup(&self.pads[i].title))
                    },
                    None => None,
                }
            },
            Tab::Plans => {
                let ids = plan_id_list(&self.plans);
                match position(&ids, self.read_id.as_str()) {
                    Some(i) => {
                        assert(views(self.plans@)[i as int] == self.plans@[i as int]@);
                        Some(dup(&self.plans[i].rel_path))
                    },
                    None => None,
                }
            },
        }
    }

    /// The open todo as the Todos list loaded it.
    pub fn read_todo(&self) -> (r: Option<Todo>)
        ensures
            match first_pos(todo_ids(views(self.todos@)), self.read_id@) {
                Some(i) => r matches Some(t) && t@ == views(self.todos@)[i],
                None => r is None,
            },
    {
        let ids = todo_id_list(&self.todos);
        match position(&ids, self.read_id.as_str()) {
            Some(i) => {
                assert(views(self.todos@)[i as int] == self.todos@[i as int]@);
                Some(self.todos[i].copy())
            },
            None => None,
        }
    }
}

} // verus!
