use tally::errors::Error;
use tally::project::Project;
use tally::scratchpads::{
    first_h1_exec, headings_of, line_window, parse_pad, section_of, EditTarget,
};

fn new_project() -> Project {
    Project::new(
        "/tmp/tally-test/repo".to_string(),
        "repo".to_string(),
        "/tmp/tally-test/store/projects/repo-00000000".to_string(),
        "agent".to_string(),
    )
}

fn range(offset: i64, limit: i64) -> EditTarget {
    EditTarget {
        kind: "line_range".into(),
        offset,
        limit,
        ..Default::default()
    }
}

#[test]
fn test_create_read_scratchpad() {
    let mut p = new_project();
    let s = p
        .create_scratchpad("Plan", "# Plan\n\nstep one\n", vec!["x".into()])
        .unwrap();
    assert_eq!(s.revision, 1);
    assert_eq!(s.status, "active");
    let (got, _) = p.read_scratchpad(&s.id, "full", "", 0, 0).unwrap();
    assert!(got.content.contains("step one"));
}

#[test]
fn test_read_headings_and_section() {
    let mut p = new_project();
    let s = p
        .create_scratchpad("Doc", "# Doc\n\n## A\naaa\n\n## B\nbbb\n", Vec::new())
        .unwrap();
    let (_, headings) = p.read_scratchpad(&s.id, "headings", "", 0, 0).unwrap();
    assert!(
        headings.contains("## A") && headings.contains("## B"),
        "headings: {headings:?}"
    );
    let (_, sec) = p.read_scratchpad(&s.id, "section", "A", 0, 0).unwrap();
    assert!(sec.contains("aaa") && !sec.contains("bbb"), "section: {sec:?}");
}

#[test]
fn test_update_revision_guard() {
    let mut p = new_project();
    let s = p.create_scratchpad("x", "# x\nbody\n", Vec::new()).unwrap();
    let err = p
        .update_scratchpad(&s.id, 99, None, Some("# x\nnew\n"), None)
        .unwrap_err();
    assert!(matches!(err, Error::RevisionMismatch), "want RevisionMismatch, got {err:?}");
    let up = p
        .update_scratchpad(&s.id, 1, None, Some("# x\nnew\n"), None)
        .unwrap();
    assert_eq!(up.revision, 2);
}

#[test]
fn test_archive_hides_from_list() {
    let mut p = new_project();
    let s = p.create_scratchpad("x", "# x\n", Vec::new()).unwrap();
    p.archive_scratchpad(&s.id, 1).unwrap();
    let active = p.list_scratchpads(&Vec::new(), "", false, 0, 0).unwrap();
    assert!(active.is_empty(), "archived should be hidden: {active:?}");
    let all = p.list_scratchpads(&Vec::new(), "", true, 0, 0).unwrap();
    assert_eq!(all.len(), 1);
}

#[test]
fn test_append_and_section() {
    let mut p = new_project();
    let s = p
        .create_scratchpad("x", "# x\n\n## Notes\nfirst\n", Vec::new())
        .unwrap();
    let ap = p.append_scratchpad(&s.id, "tail", 1, true).unwrap();
    assert!(
        ap.content.trim_end_matches('\n').ends_with("tail"),
        "append: {:?}",
        ap.content
    );
    let sec = p
        .append_section(&s.id, "Notes", "second", ap.revision)
        .unwrap();
    let idx = sec.content.find("first").expect("first missing");
    assert!(sec.content[idx..].contains("second"), "append-section: {:?}", sec.content);
}

#[test]
fn test_edit_line_range() {
    let mut p = new_project();
    let s = p.create_scratchpad("x", "a\nb\nc\n", Vec::new()).unwrap();
    let up = p.edit_scratchpad(&s.id, range(1, 1), "B", 1).unwrap();
    assert_eq!(up.content, "a\nB\nc\n");
}

#[test]
fn test_find_and_tail() {
    let mut p = new_project();
    let s = p
        .create_scratchpad("x", "# x\nalpha\nbeta\nalpha\n", Vec::new())
        .unwrap();
    let m = p
        .find_in_scratchpad(&s.id, "alpha", "content", false, 0)
        .unwrap();
    assert_eq!(m.len(), 2, "find: {m:?}");
    let (tail, n) = p.tail_scratchpad(&s.id, 2).unwrap();
    assert!(n >= 2 && tail.contains("alpha"), "tail: {tail:?} n={n}");
}

#[test]
fn test_tail_negative_lines_no_panic() {
    let mut p = new_project();
    let s = p.create_scratchpad("x", "a\nb\nc\nd\n", Vec::new()).unwrap();
    let (tail, total) = p.tail_scratchpad(&s.id, -1).unwrap();
    assert_eq!(tail, "");
    assert_eq!(total, 4);
}

#[test]
fn test_edit_negative_limit_errors() {
    let mut p = new_project();
    let s = p.create_scratchpad("x", "a\nb\nc\n", Vec::new()).unwrap();
    assert!(p.edit_scratchpad(&s.id, range(2, -1), "X", s.revision).is_err());
    let (got, _) = p.read_scratchpad(&s.id, "full", "", 0, 0).unwrap();
    assert_eq!(got.content, s.content, "pad should not be modified");
    assert!(p.edit_scratchpad(&s.id, range(0, -5), "X", s.revision).is_err());
}

#[test]
fn test_clear_scratchpad() {
    let mut p = new_project();
    let s = p
        .create_scratchpad("x", "some content\nmore\n", Vec::new())
        .unwrap();
    let cleared = p.clear_scratchpad(&s.id, s.revision).unwrap();
    assert_eq!(cleared.content, "");
    assert_eq!(cleared.revision, s.revision + 1);
}

#[test]
fn test_scratchpad_tags() {
    let mut p = new_project();
    p.create_scratchpad("a", "# a\n", vec!["foo".into(), "bar".into()])
        .unwrap();
    p.create_scratchpad("b", "# b\n", vec!["bar".into(), "baz".into()])
        .unwrap();
    let tags = p.scratchpad_tags().unwrap();
    assert_eq!(tags, vec!["bar", "baz", "foo"]);
}

#[test]
fn test_edit_line_range_huge_offset_no_panic() {
    let mut p = new_project();
    let s = p.create_scratchpad("x", "a\nb\nc\n", Vec::new()).unwrap();
    let target = EditTarget {
        kind: "line_range".into(),
        offset: i64::MAX,
        limit: 1,
        ..Default::default()
    };
    assert!(
        p.edit_scratchpad(&s.id, target, "X", s.revision).is_err(),
        "expected error for huge offset (overflow bypass)"
    );
}

#[test]
fn test_headings_of_requires_space_after_hash() {
    let mut p = new_project();
    let s = p
        .create_scratchpad("x", "#nospace\n## Real\nbody\n", Vec::new())
        .unwrap();
    let (_, headings) = p.read_scratchpad(&s.id, "headings", "", 0, 0).unwrap();
    assert!(!headings.contains("#nospace"), "headings should exclude {headings:?}");
    assert!(headings.contains("## Real"), "headings should include \"## Real\": {headings:?}");
}

#[test]
fn test_pad_path_matches_file() {
    let p = new_project();
    assert_eq!(
        p.pad_path("s_1"),
        "/tmp/tally-test/store/projects/repo-00000000/scratchpads/s_1.md"
    );
}

#[test]
fn test_parses_go_written_frontmatter() {
    let pad_text = "---\nid: s_go1\ntitle: My Pad\ntags: [a, b]\nstatus: active\nrevision: 3\ncreated: 2026-01-02T03:04:05Z\nupdated: 2026-01-02T03:04:06Z\n---\n# My Pad\n\nbody\n";
    let s = parse_pad(pad_text.as_bytes());
    assert_eq!(s.id, "s_go1");
    assert_eq!(s.title, "My Pad");
    assert_eq!(s.tags, vec!["a", "b"]);
    assert_eq!(s.status, "active");
    assert_eq!(s.revision, 3);
    assert_eq!(s.created, "2026-01-02T03:04:05Z");
    assert_eq!(s.updated, "2026-01-02T03:04:06Z");
    assert_eq!(s.content, "# My Pad\n\nbody\n");
    assert_eq!(s.render(), pad_text, "render must round-trip the file format");
}

#[test]
fn test_scratchpad_attribution_roundtrip() {
    let mut tp = new_project();
    tp.actor = "robin".to_string();
    let s = tp.create_scratchpad("x", "# x\nbody\n", Vec::new()).unwrap();
    assert_eq!(s.created_by, "robin");
    assert_eq!(s.updated_by, "robin");
    let (got, _) = tp.read_scratchpad(&s.id, "full", "", 0, 0).unwrap();
    assert_eq!(got.created_by, "robin");
    let reparsed = parse_pad(got.render().as_bytes());
    assert_eq!(reparsed.created_by, "robin");
    tp.actor = "jason".to_string();
    let up = tp.append_scratchpad(&s.id, "more", s.revision, true).unwrap();
    assert_eq!(up.created_by, "robin");
    assert_eq!(up.updated_by, "jason");
}

#[test]
fn test_render_omits_empty_attribution() {
    let s = parse_pad(
        b"---\nid: s_x\ntitle: x\ntags: []\nstatus: active\nrevision: 1\ncreated: 2026-01-01T00:00:00Z\nupdated: 2026-01-01T00:00:00Z\n---\nbody",
    );
    assert_eq!(s.created_by, "");
    let out = s.render();
    assert!(
        !out.contains("created_by") && !out.contains("updated_by"),
        "empty attribution must not render lines: {out:?}"
    );
}

#[test]
fn test_parse_pad_no_frontmatter_and_empty_tags() {
    let s = parse_pad(b"just text\n");
    assert_eq!(s.content, "just text\n");
    assert_eq!(s.status, "active");
    assert!(s.tags.is_empty());

    let s = parse_pad(b"---\nid: s_x\ntags: []\n---\nbody");
    assert_eq!(s.id, "s_x");
    assert!(s.tags.is_empty());
    assert_eq!(s.content, "body");
}

#[test]
fn pad_helpers_exact_values() {
    assert_eq!(first_h1_exec("intro\n# Title \nmore"), "Title");
    assert_eq!(first_h1_exec("no heading"), "");
    assert_eq!(headings_of("# A\ntext\n## B\n#C\n"), "# A\n## B");
    assert_eq!(section_of("# A\n## B\nb1\n## C\nc1\n", "b"), "## B\nb1");
    assert_eq!(line_window("a\nb\nc\nd", 1, 2), "b\nc");
}

#[test]
fn missing_pad_is_not_found() {
    let mut p = new_project();
    assert!(matches!(p.read_scratchpad("s_none", "full", "", 0, 0), Err(Error::NotFound)));
    assert!(matches!(p.clear_scratchpad("s_none", -1), Err(Error::NotFound)));
}

#[test]
fn attribution_and_tags_render_roundtrip() {
    let mut p = new_project();
    p.actor = "amy".into();
    let s = p
        .create_scratchpad("T", "# T\nbody\n", vec!["a".into(), "b".into()])
        .unwrap();
    let back = parse_pad(s.render().as_bytes());
    assert_eq!(back.id, s.id);
    assert_eq!(back.title, s.title);
    assert_eq!(back.tags, s.tags);
    assert_eq!(back.revision, s.revision);
    assert_eq!(back.created_by, "amy");
    assert_eq!(back.content, s.content);
}

#[test]
fn pad_read_after_create_gives_body_back() {
    let mut p = new_project();
    let s = p.create_scratchpad("Handoff", "# Handoff\nwhere I left off\n", vec!["h".to_string()]).unwrap();
    let (got, text) = p.read_scratchpad(&s.id, "full", "", 0, 0).unwrap();
    assert_eq!(got.title, "Handoff");
    assert_eq!(got.content, "# Handoff\nwhere I left off\n");
    assert_eq!(text, "# Handoff\nwhere I left off\n");
    assert_eq!(got.tags, vec!["h".to_string()]);
    assert_eq!(got.revision, 1);
}

#[test]
fn fresh_ids_count_from_one_modulo_1296() {
    let mut p = new_project();
    let a = p.fresh_id("s_");
    assert!(a.starts_with("s_") && a.ends_with('1'), "{a}");
    assert_eq!(p.id_seq, 1);
    p.id_seq = 1294;
    let b = p.fresh_id("s_");
    assert!(b.ends_with("zz"), "{b}");
    let c = p.fresh_id("s_");
    assert!(c.ends_with('0'), "{c}");
    let d = p.fresh_id("s_");
    assert!(d.ends_with('1'), "{d}");
}
