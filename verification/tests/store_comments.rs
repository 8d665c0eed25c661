use tally::project::Project;
use tally::todos::TodoUpdate;

fn new_project() -> Project {
    Project::new(
        "/tmp/tally-test/repo".to_string(),
        "repo".to_string(),
        "/tmp/tally-test/store/projects/repo-00000000".to_string(),
        "agent".to_string(),
    )
}

fn count_of(counts: &[(String, usize)], target: &str) -> Option<usize> {
    counts.iter().find(|(t, _)| t == target).map(|(_, n)| *n)
}

fn events(p: &Project, id: &str) -> Vec<String> {
    p.list_comments(id)
        .unwrap()
        .into_iter()
        .filter(|c| c.kind == "event")
        .map(|c| c.text)
        .collect()
}

#[test]
fn test_add_list_delete_roundtrip() {
    let mut tp = new_project();
    tp.actor = "jason".to_string();
    let c = tp.add_comment("t_abc", "", "hold off").unwrap();
    assert!(c.id.starts_with("c_"));
    assert_eq!(c.author, "jason");
    assert_eq!(c.kind, "note");
    let list = tp.list_comments("t_abc").unwrap();
    assert_eq!(list.len(), 1);
    assert_eq!(list[0].text, "hold off");
    assert!(tp.list_comments("s_zzz").unwrap().is_empty());
    tp.delete_comment(&c.id).unwrap();
    assert!(tp.list_comments("t_abc").unwrap().is_empty());
}

#[test]
fn test_delete_missing_is_notfound() {
    let mut tp = new_project();
    assert!(matches!(
        tp.delete_comment("c_nope"),
        Err(tally::errors::Error::NotFound)
    ));
}

#[test]
fn test_section_cascade_and_counts() {
    let mut tp = new_project();
    tp.add_comment("s_pad", "Phase 1", "spike first").unwrap();
    tp.add_comment("s_pad", "", "whole-pad note").unwrap();
    tp.add_comment("t_x", "", "todo note").unwrap();
    let counts = tp.comment_counts().unwrap();
    assert_eq!(count_of(&counts, "s_pad"), Some(2));
    assert_eq!(count_of(&counts, "t_x"), Some(1));
    tp.delete_comments_for_target("s_pad").unwrap();
    assert!(tp.list_comments("s_pad").unwrap().is_empty());
    assert_eq!(tp.list_comments("t_x").unwrap().len(), 1);
}

#[test]
fn test_todo_delete_cascades_comments() {
    let mut tp = new_project();
    let t = tp.create_todo("x", "", "", Vec::new()).unwrap();
    tp.add_comment(&t.id, "", "a note").unwrap();
    assert_eq!(tp.list_comments(&t.id).unwrap().len(), 1);
    tp.delete_todo(&t.id).unwrap();
    assert!(tp.list_comments(&t.id).unwrap().is_empty());
}

#[test]
fn test_pad_delete_cascades_only_on_success() {
    let mut tp = new_project();
    let s = tp
        .create_scratchpad("plan", "# H1\nbody", Vec::new())
        .unwrap();
    tp.add_comment(&s.id, "H1", "anchored").unwrap();
    assert!(tp.delete_scratchpad(&s.id, 999).is_err());
    assert_eq!(tp.list_comments(&s.id).unwrap().len(), 1);
    tp.delete_scratchpad(&s.id, s.revision).unwrap();
    assert!(tp.list_comments(&s.id).unwrap().is_empty());
}

#[test]
fn test_status_transitions_log_events() {
    let mut tp = new_project();
    let t = tp.create_todo("x", "", "", Vec::new()).unwrap();
    assert!(events(&tp, &t.id).is_empty());
    tp.add_todo_tag(&t.id, "a").unwrap();
    assert!(events(&tp, &t.id).is_empty());
    let u = TodoUpdate {
        status: Some("in progress".to_string()),
        ..TodoUpdate::default()
    };
    tp.update_todo(&t.id, u).unwrap();
    let e = events(&tp, &t.id);
    assert_eq!(e.len(), 1);
    assert!(e[0].contains("in progress"), "got {:?}", e);
    tp.complete_todo(&t.id, false).unwrap();
    assert!(events(&tp, &t.id).iter().any(|x| x == "marked done"));
    let before = events(&tp, &t.id).len();
    let stale = TodoUpdate {
        status: Some("open".to_string()),
        expected_updated: Some("1999-01-01T00:00:00Z".to_string()),
        ..TodoUpdate::default()
    };
    assert!(tp.update_todo(&t.id, stale).is_err());
    assert_eq!(events(&tp, &t.id).len(), before, "failed update must not log an event");
}

#[test]
fn comment_targets_drop_leading_dot_slash() {
    let mut tp = new_project();
    tp.add_comment("./docs/plan.md", "", "x").unwrap();
    assert_eq!(tp.list_comments("docs/plan.md").unwrap().len(), 1);
    assert_eq!(tp.list_comments("./docs/plan.md").unwrap()[0].target, "docs/plan.md");
}

#[test]
fn comment_counts_skip_events() {
    let mut tp = new_project();
    tp.add_comment_event("t_a", "marked done").unwrap();
    tp.add_comment("t_a", "", "real note").unwrap();
    let counts = tp.comment_counts().unwrap();
    assert_eq!(counts.len(), 1);
    assert_eq!(count_of(&counts, "t_a"), Some(1));
}

#[test]
fn test_new_id_unique() {
    let mut p = new_project();
    let mut seen = std::collections::HashSet::new();
    for _ in 0..1000 {
        let id = p.fresh_id("t_");
        assert!(id.starts_with("t_"), "bad id: {id:?}");
        assert!(seen.insert(id.clone()), "dup id: {id:?}");
    }
}

#[test]
fn base36_and_new_id_exact() {
    assert_eq!(tally::ids::base36(0), "0");
    assert_eq!(tally::ids::base36(35), "z");
    assert_eq!(tally::ids::base36(36), "10");
    assert_eq!(tally::ids::new_id("t_", 36 * 36, 1297), "t_1001");
}
