use tally::clock::{epoch_from_rfc3339, humanize_since};
use tally::markdown::{neutralize_task_lists, reformat_tables};
use tally::tui::{
    attribution, cluster, meta_line, meta_segments, next_priority, pad_right_aligned,
    tab_bar_text, tab_label_text, tab_ranges, Hits, ListHits, MetaHits, MetaSeg, Rect, Tab,
};

#[test]
fn priority_cycle() {
    assert_eq!(next_priority("low"), "medium");
    assert_eq!(next_priority("medium"), "high");
    assert_eq!(next_priority("high"), "low");
    assert_eq!(next_priority("bogus"), "medium");
}

#[test]
fn attribution_cases() {
    let now: u64 = 300;
    let t = "1970-01-01T00:00:00Z";
    assert_eq!(attribution("", "", t, now), "");
    let one = attribution("robin", "robin", t, now);
    assert!(one.contains("by robin") && !one.contains("edited"), "{one:?}");
    let two = attribution("robin", "jason", t, now);
    assert!(two.contains("by robin") && two.contains("edited by jason"), "{two:?}");
    let e = attribution("", "jason", t, now);
    assert!(e.contains("by jason") && !e.contains("edited"), "{e:?}");
}

#[test]
fn attribution_exact_text() {
    let t = "1970-01-01T00:00:00Z";
    assert_eq!(attribution("robin", "robin", t, 300), "   · by robin, 5m ago");
    assert_eq!(attribution("robin", "jason", t, 300), "   · by robin, edited by jason 5m ago");
    assert_eq!(attribution("", "jason", t, 300), "   · by jason, 5m ago");
}

#[test]
fn tab_ranges_match_rendered_labels() {
    let bar: Vec<char> = tab_bar_text().chars().collect();
    for (i, (s, e)) in tab_ranges().iter().enumerate() {
        let got: String = bar[*s as usize..*e as usize].iter().collect();
        assert_eq!(got, tab_label_text(i), "range {i} out of sync with the bar");
    }
}

#[test]
fn tab_at_hits_labels_and_misses_gaps() {
    let mut h = Hits {
        tabs: tab_ranges(),
        tab_row: 0,
        ..Hits::default()
    };
    assert_eq!(h.tab_at(1, 0), None);
    assert_eq!(h.tab_at(2, 0), Some(Tab::Todos));
    assert_eq!(h.tab_at(8, 0), Some(Tab::Todos));
    assert_eq!(h.tab_at(9, 0), None);
    assert_eq!(h.tab_at(13, 0), Some(Tab::Scratchpads));
    assert_eq!(h.tab_at(25, 0), Some(Tab::Scratchpads));
    assert_eq!(h.tab_at(26, 0), None);
    assert_eq!(h.tab_at(30, 0), Some(Tab::Plans));
    assert_eq!(h.tab_at(36, 0), Some(Tab::Plans));
    assert_eq!(h.tab_at(37, 0), None);
    assert_eq!(h.tab_at(2, 1), None, "wrong row");
    h.tab_row = 5;
    assert_eq!(h.tab_at(2, 5), Some(Tab::Todos), "tab row offset respected");
}

#[test]
fn meta_segments_match_rendered_line() {
    let (status, priority) = ("open", "p1");
    let line: Vec<char> = meta_line(status, priority).chars().collect();
    let (status_end, prio_start, prio_end) = meta_segments(status, priority);
    let seg: String = line[..status_end as usize].iter().collect();
    assert_eq!(seg, "○ open");
    let seg: String = line[prio_start as usize..prio_end as usize].iter().collect();
    assert_eq!(seg, "‖ P1");
    assert_eq!(prio_end as usize, line.len());
}

#[test]
fn meta_seg_at_resolves_segments() {
    let m = MetaHits::new(0, 4, "open", "p2");
    let h = Hits {
        meta: Some(m),
        ..Hits::default()
    };
    assert_eq!(h.meta_seg_at(0, 4), Some(MetaSeg::Status));
    assert_eq!(h.meta_seg_at(5, 4), Some(MetaSeg::Status));
    assert_eq!(h.meta_seg_at(7, 4), None);
    assert_eq!(h.meta_seg_at(9, 4), Some(MetaSeg::Priority));
    assert_eq!(h.meta_seg_at(12, 4), Some(MetaSeg::Priority));
    assert_eq!(h.meta_seg_at(13, 4), None);
    assert_eq!(h.meta_seg_at(9, 5), None);
}

#[test]
fn list_row_at_applies_offset_and_len() {
    let h = Hits {
        list: Some(ListHits {
            area: Rect::new(0, 2, 80, 5),
            offset: 3,
            len: 7,
        }),
        ..Hits::default()
    };
    assert_eq!(h.list_row_at(10, 2), Some(3));
    assert_eq!(h.list_row_at(10, 5), Some(6));
    assert_eq!(h.list_row_at(10, 6), None);
    assert_eq!(h.list_row_at(10, 1), None);
    assert_eq!(h.list_row_at(80, 2), None);
}

#[test]
fn pad_right_aligned_pads_and_truncates() {
    let got = pad_right_aligned("todo".to_string(), "3h", 12);
    assert_eq!(got, "todo      3h");
    assert_eq!(got.chars().count(), 12);
    let got = pad_right_aligned("a very long title".to_string(), "3h", 12);
    assert_eq!(got, "a very l… 3h");
    assert_eq!(got.chars().count(), 12);
    assert_eq!(pad_right_aligned("• notes.md".to_string(), "", 12), "• notes.md");
}

#[test]
fn cluster_joins_nonempty_only() {
    assert_eq!(cluster(&vec!["💬2".into(), String::new(), "3h".into()]), "💬2 3h");
    assert_eq!(cluster(&vec![String::new(), String::new()]), "");
}

#[test]
fn pad_measures_emoji_as_two_columns() {
    let got = pad_right_aligned("todo".to_string(), "💬2 3h", 14);
    assert!(got.ends_with("💬2 3h"), "{got}");
    assert_eq!(got, "todo    💬2 3h");
}

#[test]
fn pad_narrow_pane_keeps_right_no_panic() {
    let got = pad_right_aligned("a long todo title".to_string(), "💬9 5m", 6);
    assert!(got.contains("💬9 5m"), "{got}");
}

#[test]
fn reformat_tables_aligns_columns() {
    let input = "before\n\n| Name | Qty |\n|---|---:|\n| apples | 3 |\n| pears | 12 |\n\nafter";
    let out = reformat_tables(input);
    let lines: Vec<&str> = out.lines().collect();
    assert_eq!(lines[0], "before");
    assert_eq!(lines[2], "Name   │ Qty");
    assert_eq!(lines[3], "───────┼────");
    assert_eq!(lines[4], "apples │ 3");
    assert_eq!(lines[5], "pears  │ 12");
    assert_eq!(*lines.last().unwrap(), "after");
}

#[test]
fn reformat_tables_leaves_nontables_untouched() {
    let input = "# Heading\n\ntext | with a pipe but no delimiter row\n";
    assert_eq!(reformat_tables(input), input.trim_end_matches('\n'));
}

#[test]
fn neutralize_task_lists_rewrites_markers() {
    let md = "- [ ] open\n- [x] done\n  - [X] nested done\n* [ ] star bullet\n";
    let out = neutralize_task_lists(md);
    assert!(out.contains("- ☐ open"));
    assert!(out.contains("- ☑ done"));
    assert!(out.contains("  - ☑ nested done"), "indent preserved: {out:?}");
    assert!(out.contains("- ☐ star bullet"));
    assert!(!out.contains("[ ]") && !out.contains("[x]") && !out.contains("[X]"));
    assert_eq!(neutralize_task_lists("- plain\ntext"), "- plain\ntext");
}

#[test]
fn humanize_buckets() {
    let base = epoch_from_rfc3339("2026-07-09T12:00:00Z").unwrap();
    assert_eq!(humanize_since("2026-07-09T12:00:00Z", base), "just now");
    assert_eq!(humanize_since("2026-07-09T11:55:00Z", base), "5m");
    assert_eq!(humanize_since("2026-07-09T09:00:00Z", base), "3h");
    assert_eq!(humanize_since("2026-07-07T12:00:00Z", base), "2d");
    assert_eq!(humanize_since("2026-06-18T12:00:00Z", base), "3w");
    assert_eq!(humanize_since("garbage", base), "");
}

#[test]
fn roundtrips_against_store_epoch() {
    assert_eq!(epoch_from_rfc3339("1970-01-01T00:00:00Z"), Some(0));
    assert_eq!(epoch_from_rfc3339("1970-01-01T00:01:00Z"), Some(60));
}

fn note(section: &str, text: &str) -> tally::comments::Comment {
    tally::comments::Comment {
        id: "c_1".into(),
        target: "s_1".into(),
        section: section.into(),
        author: "jason".into(),
        created: String::new(),
        kind: "note".into(),
        text: text.into(),
        github_comment_id: 0,
    }
}

#[test]
fn groups_named_then_detached_then_whole() {
    let comments = vec![
        note("Phase 1", "anchored"),
        note("", "whole item"),
        note("Ghost", "orphaned"),
    ];
    let headings = vec!["Phase 1".to_string()];
    let lines = tally::tui::comment_block(&comments, &headings, 0);
    let text: Vec<String> = lines.iter().map(|l| l.0.clone()).collect();
    let joined = text.join("\n");
    assert!(joined.contains("comments · Phase 1"));
    assert!(joined.contains("Ghost (detached)"));
    assert!(joined.contains("comments · (whole)"));
    let p1 = text.iter().position(|l| l.contains("Phase 1")).unwrap();
    let gh = text.iter().position(|l| l.contains("detached")).unwrap();
    let wh = text.iter().position(|l| l.contains("(whole)")).unwrap();
    assert!(p1 < gh && gh < wh, "order wrong: {text:?}");
}

#[test]
fn matches_section_case_and_whitespace_insensitively() {
    let comments = vec![note("phase 1", "lower"), note("Phase 1", "title")];
    let headings = vec!["Phase  1".to_string()];
    let joined: String = tally::tui::comment_block(&comments, &headings, 0)
        .iter()
        .map(|l| l.0.clone())
        .collect::<Vec<_>>()
        .join("\n");
    assert!(!joined.contains("detached"), "should not be detached: {joined}");
    assert!(joined.contains("lower") && joined.contains("title"));
}

#[test]
fn empty_yields_no_lines() {
    assert!(tally::tui::comment_block(&Vec::new(), &Vec::new(), 0).is_empty());
}

#[test]
fn todo_rows_show_marks_and_age() {
    let mut p = tally::project::Project::new(
        "/tmp/tally-rows/repo".to_string(),
        "repo".to_string(),
        "/tmp/tally-rows/store".to_string(),
        "you".to_string(),
    );
    let t = p.create_todo("Ship it", "", "high", Vec::new()).unwrap();
    let then = tally::clock::rfc3339_to_secs(&t.updated).unwrap();
    let (left, right) = tally::tui::todo_row(&t, false, 0, then + 120);
    assert_eq!(left, "☐ [HIGH] Ship it");
    assert_eq!(right, "2m");
    let done = p.complete_todo(&t.id, false).unwrap();
    let locked = p.lock_todo(&t.id, "robin", 7).unwrap();
    let (left, right) = tally::tui::todo_row(&locked, true, 3, then + 7300);
    assert_eq!(left, "☑ [HIGH] Ship it ⛔");
    assert_eq!(right, "💬3 🔒 robin 2h");
    let mut bare = done.clone();
    bare.priority = String::new();
    bare.updated = String::new();
    let (left, right) = tally::tui::todo_row(&bare, false, 0, then);
    assert_eq!(left, "☑ [?] Ship it");
    assert_eq!(right, "");
}

#[test]
fn pad_and_plan_rows() {
    let mut p = tally::project::Project::new(
        "/tmp/tally-rows/repo".to_string(),
        "repo".to_string(),
        "/tmp/tally-rows/store".to_string(),
        "you".to_string(),
    );
    let s = p.create_scratchpad("Notes", "# Notes\n", Vec::new()).unwrap();
    let then = tally::clock::rfc3339_to_secs(&s.updated).unwrap();
    let (left, right) = tally::tui::pad_row(&s, 2, then + 30);
    assert_eq!(left, "• Notes");
    assert_eq!(right, "💬2 just now");
    let (left, right) = tally::tui::plan_row("docs/plans/a.md", 0);
    assert_eq!(left, "• docs/plans/a.md");
    assert_eq!(right, "");
}

#[test]
fn empty_lists_say_why() {
    assert_eq!(tally::tui::empty_list(Tab::Todos, ""), "  No todos yet.");
    assert_eq!(tally::tui::empty_list(Tab::Scratchpads, "x"), "  No scratchpads match /x");
    assert_eq!(
        tally::tui::empty_list(Tab::Plans, ""),
        "  No plans found. Configure paths in $HERDR_PLUGIN_CONFIG_DIR/plan-paths."
    );
    assert_eq!(tally::tui::empty_list(Tab::Plans, "q"), "  No plans match /q");
}

#[test]
fn list_offset_keeps_the_cursor_on_screen() {
    assert_eq!(tally::tui::list_offset(10, 30, 4), 0);
    assert_eq!(tally::tui::list_offset(10, 30, 10), 1);
    assert_eq!(tally::tui::list_offset(10, 30, 25), 16);
    assert_eq!(tally::tui::list_offset(0, 30, 25), 0);
    assert_eq!(tally::tui::list_offset(10, 0, 25), 0);
}
