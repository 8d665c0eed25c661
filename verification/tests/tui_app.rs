use tally::nav::Key;
use tally::panes::{App, Request};
use tally::plans::Plan;
use tally::project::Project;
use tally::todos::{TodoFilter, TodoUpdate};
use tally::tui::{meta_segments, Focus, ListHits, MetaHits, Mode, Rect, Tab};

fn store() -> Project {
    Project::new(
        "/tmp/tally-tui/repo".to_string(),
        "repo".to_string(),
        "/tmp/tally-tui/store/projects/repo-00000000".to_string(),
        "you".to_string(),
    )
}

fn app(tab: Tab) -> App {
    App::new(store(), tab)
}

fn type_str(a: &mut App, s: &str) {
    for c in s.chars() {
        a.on_key(Key::Char(c));
    }
}

fn doc(rel: &str, heading: &str) -> Plan {
    Plan {
        rel_path: rel.to_string(),
        abs_path: format!("/abs/{rel}"),
        heading: heading.to_string(),
        mod_time: 0,
    }
}

fn all_filter() -> TodoFilter {
    TodoFilter {
        status: String::new(),
        completed: None,
        is_blocked: None,
        priority: String::new(),
        query: String::new(),
        tags: Vec::new(),
        sort: String::new(),
        offset: 0,
        limit: 0,
    }
}

fn prio(p: &str) -> TodoUpdate {
    TodoUpdate {
        title: None,
        body: None,
        priority: Some(p.to_string()),
        status: None,
        tags: None,
        expected_updated: None,
    }
}

/// Panes on the Todos tab over a store holding (title, tag, priority) todos.
fn test_app_with_todos(items: &[(&str, &str, &str)]) -> App {
    let mut a = app(Tab::Todos);
    for (title, tag, p) in items {
        let tags = if tag.is_empty() { vec![] } else { vec![tag.to_string()] };
        a.p.create_todo(title, "", p, tags).unwrap();
    }
    a.refresh();
    a
}

#[test]
fn docs_filter_matches_relpath_and_heading_case_insensitive() {
    let mut a = app(Tab::Plans);
    a.plans = vec![
        doc("docs/specs/alpha.md", "Alpha Spec"),
        doc("docs/specs/beta.md", "Beta Spec"),
        doc("docs/notes/gamma.md", "Storage Design"),
    ];
    a.nav.filter = "ALPHA".to_string();
    let v: Vec<String> = a.visible_plans().iter().map(|d| d.rel_path.clone()).collect();
    assert_eq!(v, ["docs/specs/alpha.md"]);

    a.nav.filter = "storage".to_string(); // matches heading only
    let v: Vec<String> = a.visible_plans().iter().map(|d| d.rel_path.clone()).collect();
    assert_eq!(v, ["docs/notes/gamma.md"]);

    a.nav.filter = String::new();
    assert_eq!(a.visible_plans().len(), 3);
}

#[test]
fn filter_keys_narrow_and_clear() {
    let mut a = app(Tab::Plans);
    a.plans = vec![doc("a/alpha.md", "A"), doc("b/beta.md", "B")];
    a.nav.cursor[Tab::Plans.idx()] = 1;
    a.on_key(Key::Char('/'));
    assert_eq!(a.nav.mode, Mode::Filter);
    type_str(&mut a, "beta");
    assert_eq!(a.count(), 1);
    assert_eq!(a.nav.cursor[Tab::Plans.idx()], 0, "typing resets the cursor");
    a.on_key(Key::Enter);
    assert_eq!(a.nav.mode, Mode::List);
    assert_eq!(a.nav.filter, "beta", "enter keeps the filter");
    a.on_key(Key::Char('/'));
    a.on_key(Key::Esc);
    assert_eq!(a.nav.filter, "", "esc clears the filter");
}

#[test]
fn filter_cleared_on_tab_switch_away() {
    let mut a = app(Tab::Plans);
    a.nav.filter = "x".to_string();
    a.switch_tab(Tab::Todos);
    assert_eq!(a.nav.filter, "");
}

#[test]
fn filter_narrows_todos_by_metadata() {
    let mut a = test_app_with_todos(&[("Rotate tokens", "auth", "high"), ("Fix footer", "ui", "low")]);
    a.nav.tab = Tab::Todos;
    a.nav.filter = "auth".to_string(); // matches tag on the first only
    assert_eq!(a.count(), 1);
    assert_eq!(a.visible_todos()[0].title, "Rotate tokens");
    a.nav.filter = "low".to_string(); // matches priority on the second
    a.clamp_cursor();
    assert_eq!(a.count(), 1);
    assert_eq!(a.selected_id(), Some(a.visible_todos()[0].id.clone()));
}

#[test]
fn filter_clears_on_tab_switch() {
    let mut a = test_app_with_todos(&[("A", "", "medium")]);
    a.nav.tab = Tab::Todos;
    a.nav.filter = "zzz".to_string();
    a.switch_tab(Tab::Scratchpads);
    assert!(a.nav.filter.is_empty(), "filter must clear when leaving a tab");
}

#[test]
fn cursor_pins_to_id_across_resort() {
    let mut a = app(Tab::Todos);
    let ta = a.p.create_todo("a", "", "high", Vec::new()).unwrap();
    let tb = a.p.create_todo("b", "", "low", Vec::new()).unwrap();
    a.refresh();
    // priority sort: high first — a at 0, b at 1
    assert_eq!(a.todos[0].id, ta.id);
    a.nav.cursor[0] = 1;
    a.enter_read();
    assert_eq!(a.read_id, tb.id);
    // interfering write flips the order: b outranks a now
    a.p.update_todo(&tb.id, prio("high")).unwrap();
    a.p.update_todo(&ta.id, prio("low")).unwrap();
    a.refresh();
    assert_eq!(a.todos[0].id, tb.id, "list re-sorted");
    assert_eq!(a.todos[a.nav.cursor[0]].id, tb.id, "cursor followed the open item");
}

#[test]
fn list_mode_cursor_pins_to_selected_id() {
    let mut a = app(Tab::Todos);
    let ta = a.p.create_todo("a", "", "high", Vec::new()).unwrap();
    let tb = a.p.create_todo("b", "", "low", Vec::new()).unwrap();
    a.refresh();
    a.nav.cursor[0] = 1; // select b
    a.p.update_todo(&tb.id, prio("high")).unwrap();
    a.p.update_todo(&ta.id, prio("low")).unwrap();
    a.refresh();
    assert_eq!(a.todos[a.nav.cursor[0]].id, tb.id);
}

#[test]
fn space_toggles_todo_status() {
    let mut a = app(Tab::Todos);
    let t = a.p.create_todo("t", "", "", Vec::new()).unwrap();
    a.refresh();
    a.on_key(Key::Char(' '));
    assert_eq!(a.p.get_todo(&t.id).unwrap().status, "completed");
    a.on_key(Key::Char(' '));
    assert_eq!(a.p.get_todo(&t.id).unwrap().status, "open");
    assert!(a.changed, "the driver is told to save");
}

#[test]
fn delete_with_confirm_and_cancel() {
    let mut a = app(Tab::Todos);
    a.p.create_todo("t", "", "", Vec::new()).unwrap();
    a.refresh();
    a.on_key(Key::Char('d'));
    assert_eq!(a.nav.mode, Mode::Confirm);
    a.on_key(Key::Esc); // cancel
    assert_eq!(a.nav.mode, Mode::List);
    assert_eq!(a.todos.len(), 1);
    a.on_key(Key::Char('d'));
    a.on_key(Key::Char('y'));
    assert_eq!(a.todos.len(), 0);
    assert!(a.p.list_todos(all_filter()).unwrap().is_empty());
}

#[test]
fn delete_scratchpad_uses_loaded_revision() {
    let mut a = app(Tab::Scratchpads);
    a.p.create_scratchpad("pad", "body", Vec::new()).unwrap();
    a.refresh();
    a.on_key(Key::Char('d'));
    a.on_key(Key::Char('y'));
    assert!(a.status.is_empty(), "delete failed: {}", a.status);
    assert!(a.pads.is_empty());
}

#[test]
fn create_todo_via_editor() {
    let mut a = app(Tab::Todos);
    a.refresh();
    a.on_key(Key::Char('n'));
    assert_eq!(a.nav.mode, Mode::Edit);
    assert_eq!(a.nav.focus, Focus::Title);
    type_str(&mut a, "new todo");
    a.on_key(Key::Tab);
    type_str(&mut a, "the body");
    a.on_key(Key::Ctrl('d'));
    assert_eq!(a.nav.mode, Mode::List);
    let todos = a.p.list_todos(all_filter()).unwrap();
    assert_eq!(todos.len(), 1);
    assert_eq!(todos[0].title, "new todo");
    assert_eq!(todos[0].body, "the body");
}

#[test]
fn create_empty_title_rejected() {
    let mut a = app(Tab::Todos);
    a.refresh();
    a.on_key(Key::Char('n'));
    a.on_key(Key::Ctrl('d'));
    assert_eq!(a.nav.mode, Mode::Edit, "editor stays open");
    assert_eq!(a.status, "title required");
    assert!(a.p.list_todos(all_filter()).unwrap().is_empty());
}

#[test]
fn create_esc_discards_no_orphan() {
    let mut a = app(Tab::Scratchpads);
    a.refresh();
    a.on_key(Key::Char('n'));
    type_str(&mut a, "typed");
    a.on_key(Key::Esc);
    assert_eq!(a.nav.mode, Mode::DiscardConfirm);
    a.on_key(Key::Char('y'));
    assert_eq!(a.nav.mode, Mode::List);
    assert!(a.pads.is_empty(), "no orphan pad");
}

#[test]
fn edit_clean_esc_exits_without_confirm() {
    let mut a = app(Tab::Todos);
    a.p.create_todo("t", "b", "", Vec::new()).unwrap();
    a.refresh();
    a.on_key(Key::Char('e'));
    assert_eq!(a.nav.mode, Mode::Edit);
    a.on_key(Key::Esc);
    assert_eq!(a.nav.mode, Mode::List);
}

#[test]
fn edit_saves_title_and_body_with_title_collapse() {
    let mut a = app(Tab::Scratchpads);
    let s = a.p.create_scratchpad("old", "body", Vec::new()).unwrap();
    a.refresh();
    a.on_key(Key::Char('e'));
    a.on_key(Key::Tab); // focus title
    a.title = "new  title\nwrapped".to_string();
    a.on_key(Key::Ctrl('d'));
    assert_eq!(a.nav.mode, Mode::List, "save failed: {}", a.status);
    let (got, _) = a.p.read_scratchpad(&s.id, "full", "", 0, 0).unwrap();
    assert_eq!(got.title, "new title wrapped", "whitespace collapsed");
    assert_eq!(got.content, "body");
}

#[test]
fn todo_save_conflict_keeps_buffer_open() {
    let mut a = app(Tab::Todos);
    a.p.create_todo("t", "b", "", Vec::new()).unwrap();
    a.refresh();
    a.on_key(Key::Char('e'));
    type_str(&mut a, "x"); // dirty the body
    // a concurrent write landed after the editor opened
    a.edit_updated = "1999-01-01T00:00:00Z".to_string();
    a.on_key(Key::Ctrl('d'));
    assert_eq!(a.nav.mode, Mode::Edit, "editor stays open on conflict");
    assert!(a.status.starts_with("save failed:"), "{}", a.status);
    assert_eq!(a.body, "xb", "buffer intact (typed at the cursor, which opens at the top)");
}

#[test]
fn tab_click_while_editing_dirty_confirms_then_lands_on_new_tab() {
    let mut a = app(Tab::Todos);
    a.p.create_todo("t", "b", "", Vec::new()).unwrap();
    a.refresh();
    a.on_key(Key::Char('e'));
    type_str(&mut a, "dirty");
    a.switch_tab(Tab::Scratchpads); // what a tab click resolves to
    assert_eq!(a.nav.mode, Mode::DiscardConfirm);
    assert_eq!(a.nav.tab, Tab::Todos, "not switched yet");
    a.on_key(Key::Char('y'));
    assert_eq!(a.nav.tab, Tab::Scratchpads);
    assert_eq!(a.nav.mode, Mode::List);
}

#[test]
fn tab_click_while_editing_clean_switches_immediately() {
    let mut a = app(Tab::Todos);
    a.p.create_todo("t", "b", "", Vec::new()).unwrap();
    a.refresh();
    a.on_key(Key::Char('e'));
    a.switch_tab(Tab::Plans);
    assert_eq!(a.nav.tab, Tab::Plans);
    assert_eq!(a.nav.mode, Mode::List);
}

#[test]
fn discard_confirm_n_returns_to_editor() {
    let mut a = app(Tab::Todos);
    a.p.create_todo("t", "b", "", Vec::new()).unwrap();
    a.refresh();
    a.on_key(Key::Char('e'));
    type_str(&mut a, "z");
    a.on_key(Key::Esc);
    assert_eq!(a.nav.mode, Mode::DiscardConfirm);
    a.on_key(Key::Char('n'));
    assert_eq!(a.nav.mode, Mode::Edit, "back to editing, buffer intact");
    assert_eq!(a.body, "zb");
}

#[test]
fn read_mode_click_meta_segments_toggle_and_cycle() {
    let mut a = app(Tab::Todos);
    let t = a.p.create_todo("t", "b", "medium", Vec::new()).unwrap();
    a.refresh();
    a.enter_read();
    // the last draw put the meta row at y=4, x=0
    a.hits.meta = Some(MetaHits::new(0, 4, "open", "medium"));
    a.on_click(1, 4); // inside "○ open"
    assert_eq!(a.p.get_todo(&t.id).unwrap().status, "completed");
    let (_, prio_start, _) = meta_segments("completed", "medium");
    a.hits.meta = Some(MetaHits::new(0, 4, "completed", "medium"));
    a.on_click(prio_start, 4);
    assert_eq!(a.p.get_todo(&t.id).unwrap().priority, "high");
}

#[test]
fn list_click_selects_then_opens() {
    let mut a = app(Tab::Todos);
    a.p.create_todo("a", "", "high", Vec::new()).unwrap();
    a.p.create_todo("b", "", "low", Vec::new()).unwrap();
    a.refresh();
    a.hits.list = Some(ListHits { area: Rect::new(0, 2, 80, 20), offset: 0, len: 2 });
    a.on_click(3, 3); // row 1: select
    assert_eq!(a.nav.cursor[0], 1);
    assert_eq!(a.nav.mode, Mode::List);
    a.on_click(3, 3); // same row again: open
    assert_eq!(a.nav.mode, Mode::Read);
}

#[test]
fn esc_quits_at_list_view() {
    let mut a = app(Tab::Todos);
    a.on_key(Key::Esc);
    assert!(a.nav.quit);
}

#[test]
fn c_toggles_hide_completed() {
    let mut a = app(Tab::Todos);
    a.p.create_todo("open", "", "", Vec::new()).unwrap();
    let done = a.p.create_todo("done", "", "", Vec::new()).unwrap();
    a.p.complete_todo(&done.id, false).unwrap();
    a.refresh();
    assert_eq!(a.todos.len(), 2);
    a.on_key(Key::Char('c')); // hide completed
    assert!(a.nav.hide_completed);
    assert_eq!(a.todos.len(), 1, "completed dropped");
    assert_eq!(a.todos[0].title, "open");
    a.on_key(Key::Char('c')); // show again
    assert_eq!(a.todos.len(), 2, "completed restored");
}

// ---------------------------------------------------------------- more

#[test]
fn plan_open_asks_the_driver_then_shows_the_file() {
    let mut a = app(Tab::Plans);
    a.reload(vec![doc("docs/a.md", "A")]);
    match a.on_key(Key::Enter) {
        Request::ReadPlan(path) => assert_eq!(path, "/abs/docs/a.md"),
        _ => panic!("expected a plan read request"),
    }
    assert_eq!(a.nav.mode, Mode::List, "nothing shown until the file arrives");
    a.open_plan("/abs/docs/a.md".to_string(), Ok("# A\nbody".to_string()));
    assert_eq!(a.nav.mode, Mode::Read);
    assert_eq!(a.read_body, "# A\nbody");
    a.open_plan("/abs/docs/a.md".to_string(), Err("gone".to_string()));
    assert_eq!(a.nav.mode, Mode::List);
    assert_eq!(a.status, "read failed: gone");
}

#[test]
fn yank_asks_for_the_selected_id_and_reports() {
    let mut a = app(Tab::Todos);
    let t = a.p.create_todo("t", "b", "", Vec::new()).unwrap();
    a.refresh();
    a.enter_read();
    match a.on_key(Key::Char('y')) {
        Request::Copy(id) => assert_eq!(id, t.id),
        _ => panic!("expected a copy request"),
    }
    a.copied(&t.id, None);
    assert_eq!(a.status, format!("copied {} to clipboard", t.id));
    a.copied(&t.id, Some("no clipboard".to_string()));
    assert_eq!(a.status, "copy failed: no clipboard");
}

#[test]
fn read_scroll_stops_at_the_top_and_esc_returns() {
    let mut a = app(Tab::Todos);
    a.p.create_todo("t", "one\ntwo\nthree", "", Vec::new()).unwrap();
    a.refresh();
    a.on_key(Key::Enter);
    assert_eq!(a.nav.mode, Mode::Read);
    assert_eq!(a.read_body, "one\ntwo\nthree");
    a.on_key(Key::Char('j'));
    a.on_key(Key::Char('j'));
    assert_eq!(a.read_scroll, 2);
    a.on_key(Key::Char('k'));
    a.on_key(Key::Char('k'));
    a.on_key(Key::Char('k'));
    assert_eq!(a.read_scroll, 0, "not above the top");
    a.on_wheel(true);
    assert_eq!(a.read_scroll, 3);
    a.on_key(Key::Esc);
    assert_eq!(a.nav.mode, Mode::List);
}

#[test]
fn saving_from_the_detail_view_shows_the_saved_body() {
    let mut a = app(Tab::Todos);
    let t = a.p.create_todo("t", "old", "", Vec::new()).unwrap();
    a.refresh();
    a.on_key(Key::Enter);
    a.on_key(Key::Char('e'));
    assert_eq!(a.nav.edit_return, Mode::Read);
    a.on_key(Key::End);
    a.on_key(Key::Backspace);
    a.on_key(Key::Backspace);
    a.on_key(Key::Backspace);
    type_str(&mut a, "new");
    a.on_key(Key::Enter);
    type_str(&mut a, "line");
    a.on_key(Key::Ctrl('d'));
    assert_eq!(a.nav.mode, Mode::Read);
    assert_eq!(a.read_body, "new\nline");
    assert_eq!(a.p.get_todo(&t.id).unwrap().body, "new\nline");
}

#[test]
fn editor_priority_key_keeps_the_save_guard() {
    let mut a = app(Tab::Todos);
    let t = a.p.create_todo("t", "b", "low", Vec::new()).unwrap();
    a.refresh();
    a.on_key(Key::Char('e'));
    a.on_key(Key::Ctrl('p'));
    assert_eq!(a.p.get_todo(&t.id).unwrap().priority, "medium");
    type_str(&mut a, "!");
    a.on_key(Key::Ctrl('d'));
    assert_eq!(a.nav.mode, Mode::List, "save failed: {}", a.status);
    assert_eq!(a.p.get_todo(&t.id).unwrap().body, "!b");
}

#[test]
fn paste_goes_to_the_focused_buffer() {
    let mut a = app(Tab::Scratchpads);
    a.on_paste("ignored");
    assert_eq!(a.body, "");
    a.on_key(Key::Char('n'));
    a.on_paste("Title");
    a.on_key(Key::Tab);
    a.on_paste("pasted\nbody");
    assert_eq!(a.title, "Title");
    assert_eq!(a.body, "pasted\nbody");
}

#[test]
fn blocked_rows_are_listed() {
    let mut a = app(Tab::Todos);
    let first = a.p.create_todo("first", "", "", Vec::new()).unwrap();
    let second = a.p.create_todo("second", "", "", Vec::new()).unwrap();
    a.p.add_blocker(&second.id, &first.id).unwrap();
    a.refresh();
    assert_eq!(a.blocked, vec![second.id.clone()]);
    a.p.complete_todo(&first.id, false).unwrap();
    a.refresh();
    assert!(a.blocked.is_empty());
}

#[test]
fn editor_cursor_moves_and_edits_in_place() {
    let mut a = app(Tab::Scratchpads);
    a.p.create_scratchpad("pad", "ab\ncdef\ng", Vec::new()).unwrap();
    a.refresh();
    a.on_key(Key::Char('e'));
    assert_eq!(a.body_at, 0, "the body opens at the top");
    a.on_key(Key::Right);
    a.on_key(Key::Char('X')); // aXb
    assert_eq!(a.body, "aXb\ncdef\ng");
    a.on_key(Key::Down); // same column on the next line
    assert_eq!(a.body_at, 6);
    a.on_key(Key::End);
    assert_eq!(a.body_at, 8);
    a.on_key(Key::Down); // the last line is shorter: its end
    assert_eq!(a.body_at, 10);
    a.on_key(Key::Up);
    assert_eq!(a.body_at, 5);
    a.on_key(Key::Home);
    assert_eq!(a.body_at, 4);
    a.on_key(Key::Delete);
    assert_eq!(a.body, "aXb\ndef\ng");
    a.on_key(Key::Backspace); // joins the lines
    assert_eq!(a.body, "aXbdef\ng");
    assert_eq!(a.body_at, 3);
    a.on_key(Key::Enter);
    assert_eq!(a.body, "aXb\ndef\ng");
    a.on_key(Key::Tab);
    a.on_key(Key::End);
    a.on_key(Key::Enter); // no line breaks in the title
    a.on_key(Key::Char('!'));
    assert_eq!(a.title, "pad!");
    a.on_paste(" more");
    assert_eq!(a.title, "pad! more");
    assert_eq!(a.title_at, 9);
}
