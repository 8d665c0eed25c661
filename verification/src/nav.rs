//! The terminal UI's navigation state and what each key does to it: which
//! tab and mode are showing, where each tab's cursor is, the list filter,
//! and the confirmations. A key moves the state and names the one effect
//! the driver carries out (a store call, a reload, opening the editor).
use vstd::prelude::*;
use crate::scratchpads::words;
use crate::text::{dup, from_chars, join_strings, join_with, to_chars};
use crate::tui::{row_hit, seg_hit, tab_hit, tab_index, Focus, Hits, MetaSeg, Mode, Rect, Tab};

verus! {

/// A key as the panes see it.
#[derive(Clone, Copy, PartialEq, Eq, Structural, Debug)]
pub enum Key {
    Char(char),
    /// A character typed with Control held.
    Ctrl(char),
    Esc,
    Enter,
    Up,
    Down,
    Backspace,
    Tab,
    BackTab,
    PageUp,
    PageDown,
    Left,
    Right,
    Home,
    End,
    Delete,
    Other,
}

/// What the driver does after a key.
#[derive(Clone, Debug, PartialEq, Eq)]
pub enum Effect {
    Nothing,
    Quit,
    /// Reload the lists from the store.
    Reload,
    /// Complete or reopen the selected todo, then reload.
    ToggleStatus,
    /// Move the selected todo to its next priority, then reload.
    CyclePriority,
    /// Delete the item with this id, then reload.
    Delete(String),
    /// Open the selected item in the detail view.
    Open,
    /// Open the selected item in the editor.
    Edit,
    /// Open the editor on a new item.
    EditNew,
    /// Re-clamp the cursor against the (re-)filtered list.
    Clamp,
    /// Scroll the detail view by this many lines.
    Scroll(i32),
    /// Re-render the detail body (raw/markdown switched).
    Rerender,
    /// Copy the detail body to the clipboard.
    Yank,
    /// Save the editor's buffer.
    Save,
    /// Hand the key to the focused editor.
    Forward,
}

/// The panes' navigation state.
pub struct Nav {
    pub tab: Tab,
    pub mode: Mode,
    /// Each tab's selected row.
    pub cursor: [usize; 3],
    /// The list filter (empty = none).
    pub filter: String,
    /// Todos tab: completed todos are hidden.
    pub hide_completed: bool,
    /// The id awaiting delete confirmation.
    pub pending: String,
    /// The tab a discard-confirm is gating a switch to.
    pub pending_tab: Option<Tab>,
    /// The detail view shows the raw body.
    pub raw: bool,
    pub focus: Focus,
    /// Where the editor returns to.
    pub edit_return: Mode,
    pub quit: bool,
}

/// The cursor moved by `d` within a list of `n` rows.
pub open spec fn clamped(c: int, d: int, n: int) -> int {
    if n == 0 {
        0
    } else if c + d < 0 {
        0
    } else if c + d > n - 1 {
        n - 1
    } else {
        c + d
    }
}

/// `n` with only the current tab's cursor changed to `c`.
pub open spec fn with_cursor(old: Nav, new: Nav, c: int) -> bool {
    &&& new.cursor@ == old.cursor@.update(tab_index(old.tab) as int, c as usize)
    &&& new.tab == old.tab && new.mode == old.mode && new.filter@ == old.filter@
    &&& new.hide_completed == old.hide_completed && new.pending@ == old.pending@
    &&& new.pending_tab == old.pending_tab && new.raw == old.raw && new.focus == old.focus
    &&& new.edit_return == old.edit_return && new.quit == old.quit
}

/// Everything but the mode and the named fields is kept.
pub open spec fn same_nav(old: Nav, new: Nav) -> bool {
    &&& new.cursor@ == old.cursor@ && new.tab == old.tab && new.filter@ == old.filter@
    &&& new.hide_completed == old.hide_completed && new.pending@ == old.pending@
    &&& new.pending_tab == old.pending_tab && new.raw == old.raw && new.focus == old.focus
    &&& new.edit_return == old.edit_return && new.quit == old.quit
}

/// Where a tab switch lands: a dirty editor first asks to discard (and
/// remembers the tab); otherwise the new tab's list, with the filter
/// cleared unless it is the Plans tab. Switching to the tab whose list is
/// already showing changes nothing.
pub open spec fn switched(old: Nav, new: Nav, t: Tab, dirty: bool) -> bool {
    if t == old.tab && old.mode == Mode::List {
        same_nav(old, new) && new.mode == old.mode
    } else if old.mode == Mode::Edit && dirty {
        &&& new.pending_tab == Some(t) && new.mode == Mode::DiscardConfirm
        &&& new.cursor@ == old.cursor@ && new.tab == old.tab && new.filter@ == old.filter@
        &&& new.hide_completed == old.hide_completed && new.pending@ == old.pending@
        &&& new.raw == old.raw && new.focus == old.focus && new.edit_return == old.edit_return
        &&& new.quit == old.quit
    } else {
        &&& new.tab == t && new.mode == Mode::List
        &&& new.filter@ == (if t == Tab::Plans { old.filter@ } else { Seq::empty() })
        &&& new.cursor@ == old.cursor@ && new.hide_completed == old.hide_completed
        &&& new.pending@ == old.pending@ && new.pending_tab == old.pending_tab && new.raw == old.raw
        &&& new.focus == old.focus && new.edit_return == old.edit_return && new.quit == old.quit
    }
}

fn same_tab(a: Tab, b: Tab) -> (r: bool)
    ensures
        r == (a == b),
{
    match (a, b) {
        (Tab::Todos, Tab::Todos) => true,
        (Tab::Scratchpads, Tab::Scratchpads) => true,
        (Tab::Plans, Tab::Plans) => true,
        _ => false,
    }
}

fn is_mode(a: Mode, b: Mode) -> (r: bool)
    ensures
        r == (a == b),
{
    match (a, b) {
        (Mode::List, Mode::List) => true,
        (Mode::Read, Mode::Read) => true,
        (Mode::Confirm, Mode::Confirm) => true,
        (Mode::Edit, Mode::Edit) => true,
        (Mode::DiscardConfirm, Mode::DiscardConfirm) => true,
        (Mode::Filter, Mode::Filter) => true,
        _ => false,
    }
}

impl Nav {
    /// Fresh state on a tab's list.
    pub fn new(tab: Tab) -> (n: Nav)
        ensures
            n.tab == tab,
            n.mode == Mode::List,
            n.cursor@ == seq![0usize, 0usize, 0usize],
            n.filter@.len() == 0,
            !n.hide_completed,
            n.pending@.len() == 0,
            n.pending_tab is None,
            !n.raw,
            n.focus == Focus::Body,
            n.edit_return == Mode::List,
            !n.quit,
    {
        let n = Nav {
            tab,
            mode: Mode::List,
            cursor: [0usize; 3],
            filter: String::new(),
            hide_completed: false,
            pending: String::new(),
            pending_tab: None,
            raw: false,
            focus: Focus::Body,
            edit_return: Mode::List,
            quit: false,
        };
        assert(n.cursor@ =~= seq![0usize, 0usize, 0usize]);
        n
    }

    /// The current tab's cursor.
    pub fn current(&self) -> (c: usize)
        ensures
            c == self.cursor@[tab_index(self.tab) as int],
    {
        self.cursor[self.tab.idx()]
    }

    /// Moves the current tab's cursor by `d` rows within `n` rows.
    pub fn move_cursor(&mut self, n: usize, d: i64)
        ensures
            with_cursor(*old(self), *final(self), clamped(old(self).cursor@[tab_index(old(self).tab) as int] as int, d as int, n as int)),
    {
        let i = self.tab.idx();
        if n == 0 {
            self.cursor.set(i, 0);
            return;
        }
        let t: i128 = self.cursor[i] as i128 + d as i128;
        let top: i128 = n as i128 - 1;
        let v: usize = if t < 0 {
            0
        } else if t > top {
            n - 1
        } else {
            t as usize
        };
        self.cursor.set(i, v);
    }

    /// Moves to another tab (see `switched`); `dirty` says whether an open
    /// editor holds unsaved changes.
    pub fn switch_tab(&mut self, t: Tab, dirty: bool)
        ensures
            switched(*old(self), *final(self), t, dirty),
    {
        if same_tab(t, self.tab) && is_mode(self.mode, Mode::List) {
            return;
        }
        if is_mode(self.mode, Mode::Edit) && dirty {
            self.pending_tab = Some(t);
            self.mode = Mode::DiscardConfirm;
            return;
        }
        self.tab = t;
        self.mode = Mode::List;
        if !same_tab(t, Tab::Plans) {
            self.filter = String::new();
        }
    }
}

/// What a key does on a list: `n` is the visible row count and `selected`
/// the selected row's id.
pub open spec fn list_step(old: Nav, new: Nav, k: Key, n: int, selected: Option<Seq<char>>, e: Effect) -> bool {
    match k {
        Key::Ctrl('c') | Key::Char('q') | Key::Esc => e == Effect::Quit && new.quit && new.mode == old.mode
            && new.cursor@ == old.cursor@ && new.tab == old.tab && new.filter@ == old.filter@
            && new.hide_completed == old.hide_completed && new.pending@ == old.pending@
            && new.pending_tab == old.pending_tab && new.raw == old.raw && new.focus == old.focus
            && new.edit_return == old.edit_return,
        Key::Char('c') if old.tab == Tab::Todos => e == Effect::Reload && new.hide_completed == !old.hide_completed
            && new.mode == old.mode && new.cursor@ == old.cursor@ && new.tab == old.tab
            && new.filter@ == old.filter@ && new.pending@ == old.pending@ && new.pending_tab == old.pending_tab
            && new.raw == old.raw && new.focus == old.focus && new.edit_return == old.edit_return
            && new.quit == old.quit,
        Key::Char('1') => e == Effect::Nothing && switched(old, new, Tab::Todos, false),
        Key::Char('2') => e == Effect::Nothing && switched(old, new, Tab::Scratchpads, false),
        Key::Char('3') => e == Effect::Nothing && switched(old, new, Tab::Plans, false),
        Key::Char('j') | Key::Down => e == Effect::Nothing && with_cursor(
            old,
            new,
            clamped(old.cursor@[tab_index(old.tab) as int] as int, 1, n),
        ),
        Key::Char('k') | Key::Up => e == Effect::Nothing && with_cursor(
            old,
            new,
            clamped(old.cursor@[tab_index(old.tab) as int] as int, -1, n),
        ),
        Key::Char('/') => e == Effect::Nothing && new.mode == Mode::Filter && same_nav(old, new),
        Key::Char('r') => e == Effect::Reload && new.mode == old.mode && same_nav(old, new),
        Key::Char(' ') if old.tab == Tab::Todos => e == Effect::ToggleStatus && new.mode == old.mode && same_nav(old, new),
        Key::Char('d') if old.tab != Tab::Plans => e == Effect::Nothing && match selected {
            Some(id) => new.pending@ == id && new.mode == Mode::Confirm && new.cursor@ == old.cursor@
                && new.tab == old.tab && new.filter@ == old.filter@ && new.hide_completed == old.hide_completed
                && new.pending_tab == old.pending_tab && new.raw == old.raw && new.focus == old.focus
                && new.edit_return == old.edit_return && new.quit == old.quit,
            None => new.mode == old.mode && same_nav(old, new),
        },
        Key::Enter | Key::Char('o') => e == (if selected is Some { Effect::Open } else { Effect::Nothing })
            && new.mode == old.mode && same_nav(old, new),
        Key::Char('n') if old.tab != Tab::Plans => e == Effect::EditNew && new.mode == old.mode && same_nav(old, new),
        Key::Char('e') if old.tab != Tab::Plans => e == Effect::Edit && new.mode == old.mode && same_nav(old, new),
        Key::Char('p') if old.tab == Tab::Todos => e == Effect::CyclePriority && new.mode == old.mode && same_nav(old, new),
        _ => e == Effect::Nothing && new.mode == old.mode && same_nav(old, new),
    }
}

/// What a key does while a delete waits for confirmation.
pub open spec fn confirm_step(old: Nav, new: Nav, k: Key, e: Effect) -> bool {
    &&& (k == Key::Char('y') ==> (e matches Effect::Delete(id) && id@ == old.pending@))
    &&& (k != Key::Char('y') ==> e == Effect::Nothing)
    &&& (new.mode == Mode::List)
    &&& (new.pending@.len() == 0)
    &&& (new.cursor@ == old.cursor@)
    &&& (new.tab == old.tab)
    &&& (new.filter@ == old.filter@)
    &&& (new.hide_completed == old.hide_completed)
    &&& (new.pending_tab == old.pending_tab)
    &&& (new.quit == old.quit)
    &&& (new.raw == old.raw && new.focus == old.focus && new.edit_return == old.edit_return)
}

/// What a key does while a filter is typed.
pub open spec fn filter_step(old: Nav, new: Nav, k: Key, e: Effect) -> bool {
    &&& (k == Key::Esc ==> e == Effect::Clamp && new.filter@.len() == 0 && new.mode == Mode::List
        && new.cursor@ == old.cursor@)
    &&& (k == Key::Enter ==> e == Effect::Clamp && new.filter@ == old.filter@
        && new.mode == Mode::List && new.cursor@ == old.cursor@)
    &&& (k == Key::Backspace ==> e == Effect::Clamp && new.mode == old.mode
        && new.cursor@ == old.cursor@ && new.filter@ == (if old.filter@.len() == 0 {
            old.filter@
        } else {
            old.filter@.drop_last()
        }))
    &&& ((k matches Key::Char(c) && new.filter@ == old.filter@.push(c)
        && new.cursor@ == old.cursor@.update(tab_index(old.tab) as int, 0usize)
        && e == Effect::Nothing && new.mode == old.mode) || !(k is Char))
    &&& (!(k is Esc || k is Enter || k is Backspace || k is Char) ==> e == Effect::Nothing
        && new.filter@ == old.filter@ && new.mode == old.mode
        && new.cursor@ == old.cursor@)
    &&& (new.tab == old.tab)
    &&& (new.pending@ == old.pending@)
    &&& (new.quit == old.quit)
    &&& (new.hide_completed == old.hide_completed && new.pending_tab == old.pending_tab && new.raw == old.raw)
    &&& (new.focus == old.focus && new.edit_return == old.edit_return)
}

/// What a key does while a discard waits for confirmation.
pub open spec fn discard_step(old: Nav, new: Nav, k: Key, e: Effect) -> bool {
    &&& (k == Key::Char('y') ==> e == Effect::Reload && new.pending_tab is None && match old.pending_tab {
        Some(t) => new.tab == t && new.mode == Mode::List && new.filter@ == (if t == Tab::Plans {
            old.filter@
        } else {
            Seq::empty()
        }),
        None => new.tab == old.tab && new.mode == old.edit_return && new.filter@ == old.filter@,
    })
    &&& (k != Key::Char('y') ==> e == Effect::Nothing && new.pending_tab is None && new.mode
        == Mode::Edit && new.tab == old.tab && new.filter@ == old.filter@)
    &&& (new.cursor@ == old.cursor@)
    &&& (new.quit == old.quit)
    &&& (new.hide_completed == old.hide_completed && new.pending@ == old.pending@ && new.raw == old.raw)
    &&& (new.focus == old.focus && new.edit_return == old.edit_return)
}

/// What a key does in the detail view.
pub open spec fn read_step(old: Nav, new: Nav, k: Key, page: u16, e: Effect) -> bool {
    &&& ((k == Key::Esc || k == Key::Char('q')) ==> e == Effect::Nothing && new.mode == Mode::List)
    &&& (k == Key::Char('R') ==> e == Effect::Rerender && new.raw == !old.raw
        && new.mode == old.mode)
    &&& (k == Key::Char(' ') ==> e == (if old.tab == Tab::Todos { Effect::ToggleStatus } else { Effect::Nothing }))
    &&& (k == Key::Char('p') ==> e == (if old.tab == Tab::Todos { Effect::CyclePriority } else { Effect::Nothing }))
    &&& ((k == Key::Char('e') || k == Key::Enter) ==> e == (if old.tab != Tab::Plans { Effect::Edit } else { Effect::Nothing }))
    &&& (k == Key::Char('y') ==> e == Effect::Yank)
    &&& ((k == Key::Char('j') || k == Key::Down) ==> (e matches Effect::Scroll(d) && d == 1))
    &&& ((k == Key::Char('k') || k == Key::Up) ==> (e matches Effect::Scroll(d) && d == -1))
    &&& (k == Key::PageDown ==> (e matches Effect::Scroll(d) && d == page))
    &&& (k == Key::PageUp ==> (e matches Effect::Scroll(d) && d == -page))
    &&& (k == Key::Ctrl('d') ==> (e matches Effect::Scroll(d) && d == page / 2))
    &&& (k == Key::Ctrl('u') ==> (e matches Effect::Scroll(d) && d == -(page / 2)))
    &&& (!(k == Key::Esc || k == Key::Char('q') || k == Key::Char('R')) ==> new.mode == old.mode
        && new.raw == old.raw)
    &&& (!(k == Key::Esc || k == Key::Char('q') || k == Key::Char('R') || k == Key::Char(' ') || k == Key::Char('p')
        || k == Key::Char('e') || k == Key::Enter || k == Key::Char('y') || k == Key::Char('j') || k == Key::Down
        || k == Key::Char('k') || k == Key::Up || k == Key::PageDown || k == Key::PageUp || k == Key::Ctrl('d')
        || k == Key::Ctrl('u')) ==> e == Effect::Nothing)
    &&& (new.cursor@ == old.cursor@)
    &&& (new.tab == old.tab)
    &&& (new.filter@ == old.filter@)
    &&& (new.hide_completed == old.hide_completed && new.pending@ == old.pending@)
    &&& (new.pending_tab == old.pending_tab && new.focus == old.focus && new.edit_return == old.edit_return)
    &&& (new.quit == old.quit)
}

/// What a key does in the editor.
pub open spec fn edit_step(old: Nav, new: Nav, k: Key, dirty: bool, saved_item: bool, e: Effect) -> bool {
    &&& (k == Key::Esc ==> e == Effect::Nothing && new.mode == (if dirty { Mode::DiscardConfirm } else { old.edit_return }))
    &&& (k == Key::Ctrl('d') ==> e == Effect::Save && new.mode == old.mode)
    &&& ((k == Key::Tab || k == Key::BackTab) ==> e == Effect::Nothing && new.focus == (if old.focus
        == Focus::Body { Focus::Title } else { Focus::Body }) && new.mode == old.mode)
    &&& (k == Key::Ctrl('p') ==> e == (if old.tab == Tab::Todos && saved_item { Effect::CyclePriority } else { Effect::Nothing }))
    &&& (k == Key::Ctrl('t') ==> e == (if old.tab == Tab::Todos && saved_item { Effect::ToggleStatus } else { Effect::Nothing }))
    &&& (!(k == Key::Esc || k == Key::Ctrl('d') || k == Key::Tab || k == Key::BackTab || k == Key::Ctrl('p') || k
        == Key::Ctrl('t')) ==> e == Effect::Forward && new.mode == old.mode)
    &&& (!(k == Key::Tab || k == Key::BackTab) ==> new.focus == old.focus)
    &&& (!(k == Key::Esc) ==> new.mode == old.mode)
    &&& (new.cursor@ == old.cursor@)
    &&& (new.tab == old.tab)
    &&& (new.filter@ == old.filter@)
    &&& (new.hide_completed == old.hide_completed && new.pending@ == old.pending@)
    &&& (new.pending_tab == old.pending_tab && new.raw == old.raw && new.edit_return == old.edit_return)
    &&& (new.quit == old.quit)
}

impl Nav {
    /// A key on a list (see `list_step`).
    pub fn key_list(&mut self, k: Key, n: usize, selected: Option<String>) -> (e: Effect)
        ensures
            list_step(*old(self), *final(self), k, n as int, selected.deep_view(), e),
    {
        let todos = same_tab(self.tab, Tab::Todos);
        let plans = same_tab(self.tab, Tab::Plans);
        if k == Key::Ctrl('c') || k == Key::Char('q') || k == Key::Esc {
            self.quit = true;
            Effect::Quit
        } else if k == Key::Char('c') && todos {
            self.hide_completed = !self.hide_completed;
            Effect::Reload
        } else if k == Key::Char('1') {
            self.switch_tab(Tab::Todos, false);
            Effect::Nothing
        } else if k == Key::Char('2') {
            self.switch_tab(Tab::Scratchpads, false);
            Effect::Nothing
        } else if k == Key::Char('3') {
            self.switch_tab(Tab::Plans, false);
            Effect::Nothing
        } else if k == Key::Char('j') || k == Key::Down {
            self.move_cursor(n, 1);
            Effect::Nothing
        } else if k == Key::Char('k') || k == Key::Up {
            self.move_cursor(n, -1);
            Effect::Nothing
        } else if k == Key::Char('/') {
            self.mode = Mode::Filter;
            Effect::Nothing
        } else if k == Key::Char('r') {
            Effect::Reload
        } else if k == Key::Char(' ') && todos {
            Effect::ToggleStatus
        } else if k == Key::Char('d') && !plans {
            match &selected {
                Some(id) => {
                    self.pending = dup(id);
                    self.mode = Mode::Confirm;
                },
                None => {},
            }
            Effect::Nothing
        } else if k == Key::Enter || k == Key::Char('o') {
            match &selected {
                Some(_) => Effect::Open,
                None => Effect::Nothing,
            }
        } else if k == Key::Char('n') && !plans {
            Effect::EditNew
        } else if k == Key::Char('e') && !plans {
            Effect::Edit
        } else if k == Key::Char('p') && todos {
            Effect::CyclePriority
        } else {
            Effect::Nothing
        }
    }

    /// A key while a delete waits for confirmation: 'y' deletes the pending
    /// item; anything else cancels. Either way the list shows again and
    /// nothing is pending.
    pub fn key_confirm(&mut self, k: Key) -> (e: Effect)
        ensures
            confirm_step(*old(self), *final(self), k, e),
    {
        let id = dup(&self.pending);
        self.pending = String::new();
        self.mode = Mode::List;
        match k {
            Key::Char('y') => Effect::Delete(id),
            _ => Effect::Nothing,
        }
    }

    /// A key while typing a filter: Esc drops the filter, Enter keeps it,
    /// Backspace removes its last character, a plain character is added and
    /// the selection goes back to the first row.
    pub fn key_filter(&mut self, k: Key) -> (e: Effect)
        ensures
            filter_step(*old(self), *final(self), k, e),
    {
        match k {
            Key::Esc => {
                self.filter = String::new();
                self.mode = Mode::List;
                Effect::Clamp
            },
            Key::Enter => {
                self.mode = Mode::List;
                Effect::Clamp
            },
            Key::Backspace => {
                let mut v = to_chars(self.filter.as_str());
                if v.len() > 0 {
                    v.pop();
                }
                self.filter = from_chars(&v);
                Effect::Clamp
            },
            Key::Char(c) => {
                let mut v = to_chars(self.filter.as_str());
                v.push(c);
                self.filter = from_chars(&v);
                let i = self.tab.idx();
                self.cursor.set(i, 0);
                Effect::Nothing
            },
            _ => Effect::Nothing,
        }
    }

    /// A key while a discard waits for confirmation: 'y' discards the
    /// edit, landing on the tab whose switch was waiting (its list, with the
    /// filter cleared unless it is Plans) or back where the editor was opened
    /// from, then reloads; anything else returns to the editor.
    pub fn key_discard_confirm(&mut self, k: Key) -> (e: Effect)
        ensures
            discard_step(*old(self), *final(self), k, e),
    {
        match k {
            Key::Char('y') => {
                match self.pending_tab {
                    Some(t) => {
                        self.tab = t;
                        self.mode = Mode::List;
                        if !same_tab(t, Tab::Plans) {
                            self.filter = String::new();
                        }
                    },
                    None => {
                        self.mode = self.edit_return;
                    },
                }
                self.pending_tab = None;
                Effect::Reload
            },
            _ => {
                self.pending_tab = None;
                self.mode = Mode::Edit;
                Effect::Nothing
            },
        }
    }

    /// A key in the detail view; `page` is the body's visible height.
    pub fn key_read(&mut self, k: Key, page: u16) -> (e: Effect)
        ensures
            read_step(*old(self), *final(self), k, page, e),
    {
        let todos = same_tab(self.tab, Tab::Todos);
        let plans = same_tab(self.tab, Tab::Plans);
        let h = page as i32;
        match k {
            Key::Esc | Key::Char('q') => {
                self.mode = Mode::List;
                Effect::Nothing
            },
            Key::Char('R') => {
                self.raw = !self.raw;
                Effect::Rerender
            },
            Key::Char(' ') => if todos {
                Effect::ToggleStatus
            } else {
                Effect::Nothing
            },
            Key::Char('p') => if todos {
                Effect::CyclePriority
            } else {
                Effect::Nothing
            },
            Key::Char('e') | Key::Enter => if !plans {
                Effect::Edit
            } else {
                Effect::Nothing
            },
            Key::Char('y') => Effect::Yank,
            Key::Char('j') | Key::Down => Effect::Scroll(1),
            Key::Char('k') | Key::Up => Effect::Scroll(-1),
            Key::PageDown => Effect::Scroll(h),
            Key::PageUp => Effect::Scroll(-h),
            Key::Ctrl('d') => Effect::Scroll(h / 2),
            Key::Ctrl('u') => Effect::Scroll(-(h / 2)),
            _ => Effect::Nothing,
        }
    }

    /// A key in the editor: Esc leaves (through a discard-confirm when the
    /// buffer is dirty), Ctrl+D saves, Tab moves the focus, Ctrl+P and
    /// Ctrl+T change a saved todo's priority and status; anything else goes
    /// to the focused editor.
    pub fn key_edit(&mut self, k: Key, dirty: bool, saved_item: bool) -> (e: Effect)
        ensures
            edit_step(*old(self), *final(self), k, dirty, saved_item, e),
    {
        let todos = same_tab(self.tab, Tab::Todos);
        match k {
            Key::Esc => {
                if dirty {
                    self.mode = Mode::DiscardConfirm;
                } else {
                    self.mode = self.edit_return;
                }
                Effect::Nothing
            },
            Key::Ctrl('d') => Effect::Save,
            Key::Tab | Key::BackTab => {
                self.focus = match self.focus {
                    Focus::Body => Focus::Title,
                    Focus::Title => Focus::Body,
                };
                Effect::Nothing
            },
            Key::Ctrl('p') => if todos && saved_item {
                Effect::CyclePriority
            } else {
                Effect::Nothing
            },
            Key::Ctrl('t') => if todos && saved_item {
                Effect::ToggleStatus
            } else {
                Effect::Nothing
            },
            _ => Effect::Forward,
        }
    }
}

/// A title as saved from the editor: its words joined by single spaces.
pub fn collapse_title(s: &str) -> (r: String)
    ensures
        r@ == join_with(words(s@), " "@),
{
    let ws = crate::scratchpads::words_of(s);
    join_strings(&ws, " ")
}

/// Where a left click lands, given the regions the last draw recorded:
/// a tab label switches tabs (through a discard-confirm when the editor is
/// dirty); on a list, a row selects it, or opens it when it was already
/// selected; on a todo's detail row the status and priority segments act;
/// in the editor a card takes the focus and the rest goes to the editor.
pub open spec fn click_step(
    old: Nav,
    new: Nav,
    hits: Hits,
    x: u16,
    y: u16,
    n: int,
    dirty: bool,
    saved_item: bool,
    e: Effect,
) -> bool {
    match tab_hit(hits.tabs@, hits.tab_row, x, y) {
        Some(t) => e == Effect::Nothing && switched(old, new, t, dirty),
        None => if old.mode == Mode::List || old.mode == Mode::Filter {
            match row_hit(hits.list, x, y) {
                Some(i) => if i >= n {
                    e == Effect::Nothing && new.mode == old.mode && same_nav(old, new)
                } else if old.mode == Mode::List && i == old.cursor@[tab_index(old.tab) as int] {
                    e == Effect::Open && new.mode == old.mode && same_nav(old, new)
                } else {
                    e == Effect::Nothing && with_cursor(old, new, i as int)
                },
                None => e == Effect::Nothing && new.mode == old.mode && same_nav(old, new),
            }
        } else if old.mode == Mode::Read {
            new.mode == old.mode && same_nav(old, new) && e == (if old.tab == Tab::Todos {
                seg_effect(seg_hit(hits.meta, x, y))
            } else {
                Effect::Nothing
            })
        } else if old.mode == Mode::Edit {
            let focus = if hits.title_card matches Some(r) && r.holds(x, y) {
                Focus::Title
            } else if hits.body_card matches Some(r) && r.holds(x, y) {
                Focus::Body
            } else {
                old.focus
            };
            &&& new.focus == focus && new.mode == old.mode
            &&& new.cursor@ == old.cursor@ && new.tab == old.tab && new.filter@ == old.filter@
            &&& new.hide_completed == old.hide_completed && new.pending@ == old.pending@
            &&& new.pending_tab == old.pending_tab && new.raw == old.raw && new.edit_return == old.edit_return
            &&& new.quit == old.quit
            &&& e == (if old.tab == Tab::Todos && saved_item && seg_hit(hits.meta, x, y) is Some {
                seg_effect(seg_hit(hits.meta, x, y))
            } else {
                Effect::Forward
            })
        } else {
            e == Effect::Nothing && new.mode == old.mode && same_nav(old, new)
        },
    }
}

/// What a detail-row segment does when clicked.
pub open spec fn seg_effect(s: Option<MetaSeg>) -> Effect {
    match s {
        Some(MetaSeg::Status) => Effect::ToggleStatus,
        Some(MetaSeg::Priority) => Effect::CyclePriority,
        None => Effect::Nothing,
    }
}

fn seg_effect_exec(s: Option<MetaSeg>) -> (e: Effect)
    ensures
        e == seg_effect(s),
{
    match s {
        Some(MetaSeg::Status) => Effect::ToggleStatus,
        Some(MetaSeg::Priority) => Effect::CyclePriority,
        None => Effect::Nothing,
    }
}

fn in_card(c: &Option<Rect>, x: u16, y: u16) -> (b: bool)
    ensures
        b == (*c matches Some(r) && r.holds(x, y)),
{
    match c {
        Some(r) => r.contains(x, y),
        None => false,
    }
}

impl Nav {
    /// A left click at (x, y) (see `click_step`); `n` is the visible row
    /// count, `dirty` whether the editor holds unsaved changes, and
    /// `saved_item` whether the editor is on a stored item.
    pub fn click(&mut self, hits: &Hits, x: u16, y: u16, n: usize, dirty: bool, saved_item: bool) -> (e: Effect)
        ensures
            click_step(*old(self), *final(self), *hits, x, y, n as int, dirty, saved_item, e),
    {
        match hits.tab_at(x, y) {
            Some(t) => {
                self.switch_tab(t, dirty);
                return Effect::Nothing;
            },
            None => {},
        }
        let todos = same_tab(self.tab, Tab::Todos);
        if is_mode(self.mode, Mode::List) || is_mode(self.mode, Mode::Filter) {
            match hits.list_row_at(x, y) {
                Some(i) => {
                    if i >= n {
                        Effect::Nothing
                    } else if is_mode(self.mode, Mode::List) && i == self.current() {
                        Effect::Open
                    } else {
                        let t = self.tab.idx();
                        self.cursor.set(t, i);
                        Effect::Nothing
                    }
                },
                None => Effect::Nothing,
            }
        } else if is_mode(self.mode, Mode::Read) {
            if todos {
                seg_effect_exec(hits.meta_seg_at(x, y))
            } else {
                Effect::Nothing
            }
        } else if is_mode(self.mode, Mode::Edit) {
            if in_card(&hits.title_card, x, y) {
                self.focus = Focus::Title;
            } else if in_card(&hits.body_card, x, y) {
                self.focus = Focus::Body;
            }
            let seg = hits.meta_seg_at(x, y);
            if todos && saved_item && seg.is_some() {
                seg_effect_exec(seg)
            } else {
                Effect::Forward
            }
        } else {
            Effect::Nothing
        }
    }
}

/// The footer's key hints for a mode and tab.
pub open spec fn footer_of(mode: Mode, tab: Tab) -> Seq<char> {
    match mode {
        Mode::List => match tab {
            Tab::Todos => "↑↓ · enter · n new · space done · G github · e edit · d del · ? help"@,
            Tab::Scratchpads => "↑↓ · enter · n new · e edit · d del · ? help"@,
            Tab::Plans => "↑↓ · enter · / filter · r · ? help"@,
        },
        Mode::Read => match tab {
            Tab::Todos => "space done · p prio · G github · e edit · C comment · y id · R raw · esc back"@,
            Tab::Scratchpads => "e edit · C comment · y id · Y copy · R raw · esc back"@,
            Tab::Plans => "C comment · y id · Y copy · R raw · esc back"@,
        },
        Mode::Confirm => "y confirm · n/esc cancel"@,
        Mode::Edit => match tab {
            Tab::Todos => "tab title/body · ctrl+d save · esc discard · ctrl+p prio · ctrl+t done"@,
            _ => "tab title/body · ctrl+d save · esc discard"@,
        },
        Mode::DiscardConfirm => "y discard · n/esc keep editing"@,
        Mode::Filter => "type to filter · enter apply · esc clear"@,
    }
}

pub fn footer(mode: Mode, tab: Tab) -> (r: &'static str)
    ensures
        r@ == footer_of(mode, tab),
{
    match mode {
        Mode::List => match tab {
            Tab::Todos => "↑↓ · enter · n new · space done · G github · e edit · d del · ? help",
            Tab::Scratchpads => "↑↓ · enter · n new · e edit · d del · ? help",
            Tab::Plans => "↑↓ · enter · / filter · r · ? help",
        },
        Mode::Read => match tab {
            Tab::Todos => "space done · p prio · G github · e edit · C comment · y id · R raw · esc back",
            Tab::Scratchpads => "e edit · C comment · y id · Y copy · R raw · esc back",
            Tab::Plans => "C comment · y id · Y copy · R raw · esc back",
        },
        Mode::Confirm => "y confirm · n/esc cancel",
        Mode::Edit => match tab {
            Tab::Todos => "tab title/body · ctrl+d save · esc discard · ctrl+p prio · ctrl+t done",
            _ => "tab title/body · ctrl+d save · esc discard",
        },
        Mode::DiscardConfirm => "y discard · n/esc keep editing",
        Mode::Filter => "type to filter · enter apply · esc clear",
    }
}

} // verus!
