use tally::mcp::{merge_tags, drop_tags, or_default, require_revision, run_tool, update_from, Args, ToolOut};
use tally::project::Project;
use tally::scratchpads::{EditTarget, Scratchpad};
use tally::todos::Todo;

fn new_project() -> Project {
    Project::new(
        "/tmp/tally-test/repo".to_string(),
        "repo".to_string(),
        "/tmp/tally-test/store/projects/repo-00000000".to_string(),
        "agent".to_string(),
    )
}

fn call(p: &mut Project, name: &str, a: &Args) -> Result<ToolOut, tally::errors::Error> {
    assert!(p.pad_room(&a.id));
    run_tool(p, name, a, None)
}

fn pad(r: ToolOut) -> Scratchpad {
    match r {
        ToolOut::Pad(s) => s,
        _ => panic!("not a pad"),
    }
}

fn todo(r: ToolOut) -> Todo {
    match r {
        ToolOut::Todo(t) => t,
        _ => panic!("not a todo"),
    }
}

#[test]
fn test_dispatch_todo_create_then_list() {
    let mut p = new_project();
    let a = Args { title: "via mcp".into(), priority: "high".into(), ..Default::default() };
    call(&mut p, "todo_create", &a).unwrap();
    let l = Args { status: "open".into(), ..Default::default() };
    match call(&mut p, "todo_list", &l).unwrap() {
        ToolOut::Todos(v) => assert!(v.iter().any(|t| t.title == "via mcp")),
        _ => panic!("not a list"),
    }
}

#[test]
fn test_dispatch_scratchpad_write_revision_guard() {
    let mut p = new_project();
    let w = Args { content: "# hi\nbody".into(), ..Default::default() };
    let s = pad(call(&mut p, "scratchpad_write", &w).unwrap());
    assert_eq!(s.revision, 1, "want revision 1 after create");
    let wrong = Args {
        id: s.id.clone(),
        content: "should not apply".into(),
        expected_revision: Some(99),
        ..Default::default()
    };
    assert!(call(&mut p, "scratchpad_write", &wrong).is_err());
    let right = Args {
        id: s.id.clone(),
        content: "updated body".into(),
        expected_revision: Some(1),
        ..Default::default()
    };
    let s2 = pad(call(&mut p, "scratchpad_write", &right).unwrap());
    assert_eq!(s2.revision, 2, "want revision bumped to 2");
}

#[test]
fn test_unknown_tool() {
    let mut p = new_project();
    match call(&mut p, "nope", &Args::default()) {
        Err(e) => assert_eq!(e.message(), "unknown tool: nope"),
        Ok(_) => panic!("unknown tool should error"),
    }
}

#[test]
fn test_scratchpad_tail_metadata_only() {
    let mut p = new_project();
    let w = Args { content: "line1\nline2\nline3\nline4\nline5".into(), ..Default::default() };
    let id = pad(call(&mut p, "scratchpad_write", &w).unwrap()).id;
    let meta = Args { id: id.clone(), lines: Some(0), ..Default::default() };
    match call(&mut p, "scratchpad_tail", &meta).unwrap() {
        ToolOut::Tail(t, n) => {
            assert_eq!(t, "", "want empty text for lines:0");
            assert_eq!(n, 5, "want total_lines 5");
        }
        _ => panic!("not a tail"),
    }
    let full = Args { id, ..Default::default() };
    match call(&mut p, "scratchpad_tail", &full).unwrap() {
        ToolOut::Tail(t, _) => assert!(!t.is_empty(), "want non-empty text when lines is omitted"),
        _ => panic!("not a tail"),
    }
}

#[test]
fn test_scratchpad_edit_requires_expected_revision() {
    let mut p = new_project();
    let w = Args { content: "a\nb\nc\n".into(), ..Default::default() };
    let id = pad(call(&mut p, "scratchpad_write", &w).unwrap()).id;
    let target = EditTarget { kind: "line_range".into(), offset: 1, limit: 1, ..Default::default() };
    let no_rev = Args { id: id.clone(), target: target.clone(), content: "B".into(), ..Default::default() };
    match call(&mut p, "scratchpad_edit", &no_rev) {
        Err(e) => assert_eq!(e.message(), "expected_revision is required for scratchpad_edit"),
        Ok(_) => panic!("edit without expected_revision should error"),
    }
    let ok = Args { id, target, content: "B".into(), expected_revision: Some(1), ..Default::default() };
    let s = pad(call(&mut p, "scratchpad_edit", &ok).expect("edit with correct expected_revision"));
    assert_eq!(s.content, "a\nB\nc\n");
}

#[test]
fn test_scratchpad_add_tags_no_duplicate() {
    let mut p = new_project();
    let w = Args { content: "hi".into(), tags: Some(vec!["a".into()]), ..Default::default() };
    let id = pad(call(&mut p, "scratchpad_write", &w).unwrap()).id;
    let add = Args {
        id: id.clone(),
        tags: Some(vec!["a".into(), "b".into()]),
        expected_revision: Some(1),
        ..Default::default()
    };
    call(&mut p, "scratchpad_add_tags", &add).unwrap();
    let read = Args { id, ..Default::default() };
    match call(&mut p, "scratchpad_read", &read).unwrap() {
        ToolOut::Read(s, _) => assert_eq!(s.tags, vec!["a", "b"]),
        _ => panic!("not a read"),
    }
}

#[test]
fn test_todo_update_empty_string_preserves_field() {
    let mut p = new_project();
    let c = Args { title: "keep me".into(), body: "orig".into(), ..Default::default() };
    let id = todo(call(&mut p, "todo_create", &c).unwrap()).id;
    let u = Args { id, body: "new".into(), ..Default::default() };
    let t = todo(call(&mut p, "todo_update", &u).unwrap());
    assert_eq!(t.title, "keep me", "empty title cleared the field");
    assert_eq!(t.body, "new");
}

#[test]
fn remove_tags_and_transfer() {
    let mut p = new_project();
    let w = Args { content: "x".into(), tags: Some(vec!["a".into(), "b".into()]), ..Default::default() };
    let id = pad(call(&mut p, "scratchpad_write", &w).unwrap()).id;
    let rm = Args { id: id.clone(), tags: Some(vec!["a".into()]), expected_revision: Some(1), ..Default::default() };
    assert_eq!(pad(call(&mut p, "scratchpad_remove_tags", &rm).unwrap()).tags, vec!["b"]);
    match call(&mut p, "todo_transfer", &Args::default()) {
        Err(e) => assert_eq!(e.message(), "todo_transfer is phase 2"),
        Ok(_) => panic!("transfer is not supported"),
    }
}

#[test]
fn complete_false_reopens() {
    let mut p = new_project();
    let id = todo(call(&mut p, "todo_create", &Args { title: "t".into(), ..Default::default() }).unwrap()).id;
    let done = Args { id: id.clone(), ..Default::default() };
    assert_eq!(todo(call(&mut p, "todo_complete", &done).unwrap()).status, "completed");
    let back = Args { id, completed: Some(false), ..Default::default() };
    assert_eq!(todo(call(&mut p, "todo_complete", &back).unwrap()).status, "open");
}

#[test]
fn save_and_load_resolve_paths() {
    let mut p = new_project();
    let id = pad(call(&mut p, "scratchpad_write", &Args { content: "# T\nbody".into(), ..Default::default() }).unwrap()).id;
    match call(&mut p, "scratchpad_save_to_file", &Args { id, path: "out.md".into(), ..Default::default() }).unwrap() {
        ToolOut::Save(text, path) => {
            assert_eq!(path, "/tmp/tally-test/repo/out.md");
            assert!(text.starts_with("# T"));
        }
        _ => panic!("not a save"),
    }
    match call(&mut p, "scratchpad_load_from_file", &Args { path: "/abs/x.md".into(), ..Default::default() }).unwrap() {
        ToolOut::Load(path) => assert_eq!(path, "/abs/x.md"),
        _ => panic!("not a load"),
    }
}

#[test]
fn tool_helpers_exact() {
    assert_eq!(or_default("", "full"), "full");
    assert_eq!(or_default("section", "full"), "section");
    let a = Args { expected_revision: None, ..Default::default() };
    assert_eq!(a.rev(), -1);
    assert!(require_revision(&a, "x").is_err());
    let u = update_from(&Args { title: "".into(), status: "open".into(), ..Default::default() });
    assert!(u.title.is_none());
    assert_eq!(u.status.as_deref(), Some("open"));
    let have = vec!["a".to_string(), "b".to_string()];
    assert_eq!(merge_tags(&have, &vec!["b".into(), "c".into(), "c".into()]), vec!["a", "b", "c"]);
    assert_eq!(drop_tags(&have, &vec!["a".into()]), vec!["b"]);
}
