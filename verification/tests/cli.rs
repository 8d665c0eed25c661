use tally::cli::{first, parse, parse_bool, project_opt, split_id, sprint_tags, status_label};

fn strs(v: &[&str]) -> Vec<String> {
    v.iter().map(|s| s.to_string()).collect()
}

#[test]
fn parse_reads_go_flag_grammar() {
    let args = strs(&["--tag", "a", "-tag=b", "--all", "--limit", "5", "rest", "--ignored"]);
    let p = parse(&args, &strs(&["all"]), &strs(&["tag", "limit"]), &strs(&["limit"])).unwrap();
    assert_eq!(p.multi("tag"), vec!["a", "b"]);
    assert_eq!(p.str("tag", ""), "b");
    assert!(p.boolean("all", false));
    assert_eq!(p.integer("limit", 0), 5);
    assert_eq!(p.integer("offset", 7), 7);
    assert!(p.was_set("tag"));
    assert!(!p.was_set("ignored"));
}

#[test]
fn parse_errors_match_go_flag() {
    let none: Vec<String> = Vec::new();
    assert_eq!(
        parse(&strs(&["--nope"]), &none, &none, &none).err().unwrap(),
        "flag provided but not defined: -nope"
    );
    assert_eq!(
        parse(&strs(&["--tag"]), &none, &strs(&["tag"]), &none).err().unwrap(),
        "flag needs an argument: -tag"
    );
    assert_eq!(
        parse(&strs(&["--limit", "x"]), &none, &strs(&["limit"]), &strs(&["limit"])).err().unwrap(),
        "invalid value \"x\" for flag -limit"
    );
    assert!(parse(&strs(&["--all=maybe"]), &strs(&["all"]), &none, &none).is_err());
}

#[test]
fn parse_stops_at_double_dash() {
    let p = parse(&strs(&["--", "--all"]), &strs(&["all"]), &Vec::new(), &Vec::new()).unwrap();
    assert!(!p.was_set("all"));
}

#[test]
fn bool_values_like_strconv() {
    assert_eq!(parse_bool("t"), Ok(true));
    assert_eq!(parse_bool("FALSE"), Ok(false));
    assert!(parse_bool("yes").is_err());
}

#[test]
fn helpers_exact() {
    assert_eq!(project_opt(""), None);
    assert_eq!(project_opt("x"), Some("x".to_string()));
    assert_eq!(first(&strs(&["a", "b"])), "a");
    assert_eq!(first(&Vec::new()), "");
    let (id, rest) = split_id(true, &strs(&["t_1", "--x"]));
    assert_eq!(id, "t_1");
    assert_eq!(rest, vec!["--x"]);
    let (id, rest) = split_id(true, &strs(&["--x"]));
    assert_eq!(id, "");
    assert_eq!(rest, vec!["--x"]);
    assert_eq!(sprint_tags(&strs(&["a", "b"])), "[a b]");
    assert_eq!(status_label("in_progress"), "In progress");
    assert_eq!(status_label("weird"), "weird");
}

#[test]
fn test_project_key_matches_go_store() {
    assert_eq!(
        tally::project::project_key("/Users/jasonrosoff/Code/herdr-notes"),
        "herdr-notes-d0fcfa32"
    );
}

#[test]
fn test_missing_override_dir_errors() {
    let r = tally::project::resolve_project(
        "/tmp/root",
        "/tmp/root/no-such-repo",
        "agent",
        Some("/tmp/root/no-such-repo"),
        false,
        false,
    );
    match r {
        Err(e) => assert!(e.message().contains("no-such-repo"), "{}", e.message()),
        Ok(_) => panic!("missing dir must not resolve"),
    }
}

#[test]
fn test_deleted_dir_with_existing_store_resolves() {
    let a = tally::project::resolve_project("/s", "/gone/wt", "agent", Some("/gone/wt"), true, false).unwrap();
    let b = tally::project::resolve_project("/s", "/gone/wt", "agent", Some("/gone/wt"), false, true).unwrap();
    assert_eq!(a.dir, b.dir);
    assert_eq!(a.name, "wt");
}

#[test]
fn store_locations() {
    assert_eq!(tally::project::store_root_from(Some("/x".into()), Some("/h".into())), "/x/tally");
    assert_eq!(tally::project::store_root_from(Some("".into()), Some("/h".into())), "/h/.local/state/tally");
    assert_eq!(tally::project::default_actor(None), "agent");
    assert_eq!(tally::project::default_actor(Some("amy".into())), "amy");
    assert_eq!(tally::project::base_name_exec("/a/b/"), "b");
}

#[test]
fn todo_update_request_takes_only_given_fields() {
    let values = strs(&["title", "body", "body-file", "priority", "status", "tag", "github"]);
    let p = parse(&strs(&["--title", "New", "--tag", "a", "--tag", "b"]), &Vec::new(), &values, &Vec::new()).unwrap();
    let (u, gh) = tally::cli::todo_update_request(&p, String::new()).unwrap();
    let u = u.unwrap();
    assert_eq!(u.title.as_deref(), Some("New"));
    assert_eq!(u.body, None);
    assert_eq!(u.priority, None);
    assert_eq!(u.tags, Some(strs(&["a", "b"])));
    assert_eq!(gh, None);

    let p = parse(&strs(&["--body-file", "-", "--github", "off"]), &Vec::new(), &values, &Vec::new()).unwrap();
    let (u, gh) = tally::cli::todo_update_request(&p, "from stdin".to_string()).unwrap();
    assert_eq!(u.unwrap().body.as_deref(), Some("from stdin"));
    assert_eq!(gh, Some(false));

    let p = parse(&strs(&["--github", "on"]), &Vec::new(), &values, &Vec::new()).unwrap();
    let (u, gh) = tally::cli::todo_update_request(&p, String::new()).unwrap();
    assert!(u.is_none(), "no field flag, no field update");
    assert_eq!(gh, Some(true));

    let p = parse(&strs(&["--github", "maybe"]), &Vec::new(), &values, &Vec::new()).unwrap();
    let e = tally::cli::todo_update_request(&p, String::new()).unwrap_err();
    assert_eq!(e, "--github must be on|off, got \"maybe\"");
}

#[test]
fn pad_revision_check_guards_writes() {
    assert_eq!(
        tally::cli::pad_revision_check("clear", -1).unwrap_err(),
        "--expected-revision is required for clear"
    );
    assert!(tally::cli::pad_revision_check("clear", 3).is_ok());
    assert!(tally::cli::pad_revision_check("append", -1).is_ok());
    assert!(tally::cli::pad_revision_check("delete", 0).is_ok());
}

#[test]
fn pad_update_parts_takes_only_given_fields() {
    let values = strs(&["name", "content", "content-file", "tag"]);
    let p = parse(&strs(&["--name", "Plan", "--content-file", "x.md"]), &Vec::new(), &values, &Vec::new()).unwrap();
    let (name, content, tags) = tally::cli::pad_update_parts(&p, "# body".to_string());
    assert_eq!(name.as_deref(), Some("Plan"));
    assert_eq!(content.as_deref(), Some("# body"));
    assert_eq!(tags, None);
    let p = parse(&strs(&["--tag", "x"]), &Vec::new(), &values, &Vec::new()).unwrap();
    let (name, content, tags) = tally::cli::pad_update_parts(&p, String::new());
    assert_eq!(name, None);
    assert_eq!(content, None);
    assert_eq!(tags, Some(strs(&["x"])));
}

#[test]
fn id_taking_subcommands() {
    assert!(tally::cli::takes_id_exec("todos", "get"));
    assert!(tally::cli::takes_id_exec("todos", "unlock"));
    assert!(!tally::cli::takes_id_exec("todos", "list"));
    assert!(!tally::cli::takes_id_exec("todos", "create"));
    assert!(tally::cli::takes_id_exec("scratchpads", "read"));
    assert!(!tally::cli::takes_id_exec("scratchpads", "list"));
}

#[test]
fn recent_comments_render_with_labels() {
    assert_eq!(tally::cli::render_recent_comments(&Vec::new()), "_No comments yet._\n");
    let mut p = tally::project::Project::new(
        "/tmp/tally-cli/repo".to_string(),
        "repo".to_string(),
        "/tmp/tally-cli/store".to_string(),
        "robin".to_string(),
    );
    let c = p.add_comment("t_1", "", "looks good").unwrap();
    let out = tally::cli::render_recent_comments(&vec![("Todo one".to_string(), c.clone())]);
    assert_eq!(out, format!("- Todo one — **robin**: looks good  \n  <sub>{} · {}</sub>\n", c.created, c.id));
}

#[test]
fn dump_text_summarizes_the_store() {
    let mut p = tally::project::Project::new(
        "/tmp/tally-dump/repo".to_string(),
        "repo".to_string(),
        "/tmp/tally-dump/store".to_string(),
        "robin".to_string(),
    );
    assert_eq!(tally::cli::dump_text(&p), "todos: 0\ncomments: 0\nscratchpads: 0\n");
    let t = p.create_todo("Ship", "", "", Vec::new()).unwrap();
    let s = p.create_scratchpad("Notes", "", Vec::new()).unwrap();
    p.add_comment(&t.id, "", "hi").unwrap();
    assert_eq!(
        tally::cli::dump_text(&p),
        format!("todos: 1\n  [open] Ship ({})\ncomments: 1\nscratchpads: 1\n  Notes ({})\n", t.id, s.id)
    );
}

#[test]
fn comment_summaries_one_line_per_target() {
    assert_eq!(tally::cli::render_comment_summaries(&Vec::new()), "_No comments yet._\n");
    let rows = vec![
        ("☐ Fix auth".to_string(), 2usize, "hold off".to_string()),
        ("• Plan".to_string(), 1usize, "ok".to_string()),
    ];
    assert_eq!(
        tally::cli::render_comment_summaries(&rows),
        "- ☐ Fix auth · 💬2 · last: \"hold off\"\n- • Plan · 💬1 · last: \"ok\"\n"
    );
}
