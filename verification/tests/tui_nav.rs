use tally::nav::{collapse_title, footer, Effect, Key, Nav};
use tally::tui::{meta_segments, Focus, Hits, ListHits, MetaHits, Mode, Rect, Tab};

fn typed(n: &mut Nav, s: &str) {
    for c in s.chars() {
        n.key_filter(Key::Char(c));
    }
}

#[test]
fn nav_filter_keys_narrow_and_clear() {
    let mut n = Nav::new(Tab::Plans);
    n.cursor[Tab::Plans.idx()] = 1;
    assert_eq!(n.key_list(Key::Char('/'), 2, None), Effect::Nothing);
    assert_eq!(n.mode, Mode::Filter);
    typed(&mut n, "beta");
    assert_eq!(n.filter, "beta");
    assert_eq!(n.cursor[Tab::Plans.idx()], 0, "typing resets the cursor");
    assert_eq!(n.key_filter(Key::Enter), Effect::Clamp);
    assert_eq!(n.mode, Mode::List);
    assert_eq!(n.filter, "beta", "enter keeps the filter");
    n.key_list(Key::Char('/'), 1, None);
    n.key_filter(Key::Esc);
    assert_eq!(n.filter, "", "esc clears the filter");
    assert_eq!(n.mode, Mode::List);
}

#[test]
fn filter_backspace_drops_last_char() {
    let mut n = Nav::new(Tab::Todos);
    n.key_list(Key::Char('/'), 0, None);
    typed(&mut n, "ab");
    assert_eq!(n.key_filter(Key::Backspace), Effect::Clamp);
    assert_eq!(n.filter, "a");
    n.key_filter(Key::Backspace);
    n.key_filter(Key::Backspace);
    assert_eq!(n.filter, "");
}

#[test]
fn nav_filter_cleared_on_tab_switch_away() {
    let mut n = Nav::new(Tab::Plans);
    n.filter = "x".to_string();
    n.switch_tab(Tab::Todos, false);
    assert_eq!(n.filter, "");
}

#[test]
fn nav_filter_clears_on_tab_switch() {
    let mut n = Nav::new(Tab::Todos);
    n.filter = "zzz".to_string();
    n.switch_tab(Tab::Scratchpads, false);
    assert!(n.filter.is_empty(), "filter must clear when leaving a tab");
    n.filter = "keep".to_string();
    n.switch_tab(Tab::Plans, false);
    assert_eq!(n.filter, "keep", "the Plans tab keeps its filter");
}

#[test]
fn nav_esc_quits_at_list_view() {
    let mut n = Nav::new(Tab::Todos);
    assert_eq!(n.key_list(Key::Esc, 0, None), Effect::Quit);
    assert!(n.quit);
}

#[test]
fn nav_delete_with_confirm_and_cancel() {
    let mut n = Nav::new(Tab::Todos);
    n.key_list(Key::Char('d'), 1, Some("t_1".into()));
    assert_eq!(n.mode, Mode::Confirm);
    assert_eq!(n.key_confirm(Key::Esc), Effect::Nothing);
    assert_eq!(n.mode, Mode::List);
    assert_eq!(n.pending, "");
    n.key_list(Key::Char('d'), 1, Some("t_1".into()));
    assert_eq!(n.key_confirm(Key::Char('y')), Effect::Delete("t_1".into()));
    assert_eq!(n.mode, Mode::List);
}

#[test]
fn plans_tab_ignores_delete_and_edit() {
    let mut n = Nav::new(Tab::Plans);
    assert_eq!(n.key_list(Key::Char('d'), 1, Some("/r/a.md".into())), Effect::Nothing);
    assert_eq!(n.mode, Mode::List);
    assert_eq!(n.key_list(Key::Char('e'), 1, Some("/r/a.md".into())), Effect::Nothing);
    assert_eq!(n.key_list(Key::Char('o'), 1, Some("/r/a.md".into())), Effect::Open);
}

#[test]
fn nav_c_toggles_hide_completed() {
    let mut n = Nav::new(Tab::Todos);
    assert_eq!(n.key_list(Key::Char('c'), 2, None), Effect::Reload);
    assert!(n.hide_completed);
    n.key_list(Key::Char('c'), 1, None);
    assert!(!n.hide_completed);
}

#[test]
fn cursor_moves_clamped() {
    let mut n = Nav::new(Tab::Todos);
    n.key_list(Key::Down, 3, None);
    n.key_list(Key::Char('j'), 3, None);
    n.key_list(Key::Char('j'), 3, None);
    assert_eq!(n.current(), 2);
    n.key_list(Key::Up, 3, None);
    assert_eq!(n.current(), 1);
    n.move_cursor(0, 0);
    assert_eq!(n.current(), 0);
    n.cursor[0] = 9;
    n.move_cursor(4, 0);
    assert_eq!(n.current(), 3);
}

#[test]
fn nav_tab_click_while_editing_dirty_confirms_then_lands_on_new_tab() {
    let mut n = Nav::new(Tab::Todos);
    n.mode = Mode::Edit;
    n.switch_tab(Tab::Scratchpads, true);
    assert_eq!(n.mode, Mode::DiscardConfirm);
    assert_eq!(n.tab, Tab::Todos, "not switched yet");
    assert_eq!(n.key_discard_confirm(Key::Char('y')), Effect::Reload);
    assert_eq!(n.tab, Tab::Scratchpads);
    assert_eq!(n.mode, Mode::List);
}

#[test]
fn nav_tab_click_while_editing_clean_switches_immediately() {
    let mut n = Nav::new(Tab::Todos);
    n.mode = Mode::Edit;
    n.switch_tab(Tab::Plans, false);
    assert_eq!(n.tab, Tab::Plans);
    assert_eq!(n.mode, Mode::List);
}

#[test]
fn nav_discard_confirm_n_returns_to_editor() {
    let mut n = Nav::new(Tab::Todos);
    n.mode = Mode::Edit;
    assert_eq!(n.key_edit(Key::Esc, true, true), Effect::Nothing);
    assert_eq!(n.mode, Mode::DiscardConfirm);
    assert_eq!(n.key_discard_confirm(Key::Char('n')), Effect::Nothing);
    assert_eq!(n.mode, Mode::Edit, "back to editing, buffer intact");
}

#[test]
fn nav_edit_clean_esc_exits_without_confirm() {
    let mut n = Nav::new(Tab::Todos);
    n.edit_return = Mode::Read;
    n.mode = Mode::Edit;
    n.key_edit(Key::Esc, false, true);
    assert_eq!(n.mode, Mode::Read);
}

#[test]
fn edit_keys() {
    let mut n = Nav::new(Tab::Todos);
    n.mode = Mode::Edit;
    assert_eq!(n.key_edit(Key::Ctrl('d'), true, true), Effect::Save);
    assert_eq!(n.key_edit(Key::Tab, true, true), Effect::Nothing);
    assert_eq!(n.focus, Focus::Title);
    assert_eq!(n.key_edit(Key::Ctrl('p'), false, false), Effect::Nothing, "new item has nothing to change");
    assert_eq!(n.key_edit(Key::Ctrl('p'), false, true), Effect::CyclePriority);
    assert_eq!(n.key_edit(Key::Char('x'), false, true), Effect::Forward);
}

#[test]
fn read_keys_scroll_and_act() {
    let mut n = Nav::new(Tab::Todos);
    n.mode = Mode::Read;
    assert_eq!(n.key_read(Key::PageDown, 20), Effect::Scroll(20));
    assert_eq!(n.key_read(Key::Ctrl('u'), 21), Effect::Scroll(-10));
    assert_eq!(n.key_read(Key::Char('R'), 20), Effect::Rerender);
    assert!(n.raw);
    assert_eq!(n.key_read(Key::Char(' '), 20), Effect::ToggleStatus);
    assert_eq!(n.key_read(Key::Char('q'), 20), Effect::Nothing);
    assert_eq!(n.mode, Mode::List);
}

#[test]
fn nav_list_click_selects_then_opens() {
    let mut n = Nav::new(Tab::Todos);
    let hits = Hits {
        list: Some(ListHits { area: Rect::new(0, 2, 80, 20), offset: 0, len: 2 }),
        ..Hits::default()
    };
    assert_eq!(n.click(&hits, 3, 3, 2, false, false), Effect::Nothing);
    assert_eq!(n.cursor[0], 1);
    assert_eq!(n.mode, Mode::List);
    assert_eq!(n.click(&hits, 3, 3, 2, false, false), Effect::Open);
}

#[test]
fn nav_read_mode_click_meta_segments_toggle_and_cycle() {
    let mut n = Nav::new(Tab::Todos);
    n.mode = Mode::Read;
    let hits = Hits { meta: Some(MetaHits::new(0, 4, "open", "medium")), ..Hits::default() };
    assert_eq!(n.click(&hits, 1, 4, 1, false, true), Effect::ToggleStatus);
    let (_, prio_start, _) = meta_segments("completed", "medium");
    let hits = Hits { meta: Some(MetaHits::new(0, 4, "completed", "medium")), ..Hits::default() };
    assert_eq!(n.click(&hits, prio_start, 4, 1, false, true), Effect::CyclePriority);
}

#[test]
fn tab_label_click_switches() {
    let mut n = Nav::new(Tab::Todos);
    let hits = Hits { tabs: tally::tui::tab_ranges(), tab_row: 0, ..Hits::default() };
    assert_eq!(n.click(&hits, 30, 0, 0, false, false), Effect::Nothing);
    assert_eq!(n.tab, Tab::Plans);
}

#[test]
fn nav_edit_saves_title_and_body_with_title_collapse() {
    assert_eq!(collapse_title("new  title\nwrapped"), "new title wrapped");
    assert_eq!(collapse_title("  "), "");
}

#[test]
fn footer_hints_follow_mode_and_tab() {
    assert_eq!(footer(Mode::List, Tab::Plans), "↑↓ · enter · / filter · r · ? help");
    assert_eq!(footer(Mode::Read, Tab::Scratchpads), "e edit · C comment · y id · Y copy · R raw · esc back");
    assert_eq!(footer(Mode::Edit, Tab::Todos), "tab title/body · ctrl+d save · esc discard · ctrl+p prio · ctrl+t done");
    assert_eq!(footer(Mode::Edit, Tab::Plans), "tab title/body · ctrl+d save · esc discard");
    assert_eq!(footer(Mode::Confirm, Tab::Todos), "y confirm · n/esc cancel");
    assert_eq!(footer(Mode::Filter, Tab::Todos), "type to filter · enter apply · esc clear");
}
