use tally::cli::{parse, render_todos, split_id, takes_id_exec};
use tally::commands::run_todo_command;
use tally::errors::Error;
use tally::mcp::ToolOut;
use tally::project::Project;
use tally::todos::Todo;

const BOOLS: &[&str] = &["json", "release-lock"];
const VALUES: &[&str] = &[
    "project", "title", "body", "body-file", "priority", "status", "sort", "query", "completed", "is-blocked", "tag",
    "blocker", "github", "offset", "limit",
];
const INTS: &[&str] = &["offset", "limit"];

fn strs(v: &[&str]) -> Vec<String> {
    v.iter().map(|s| s.to_string()).collect()
}

fn project() -> Project {
    Project::new("/r".to_string(), "r".to_string(), "/s/r".to_string(), "agent".to_string())
}

fn todos_with(p: &mut Project, args: &[&str], origin: Option<String>) -> Result<ToolOut, Error> {
    let sub = args[0];
    let (id, flags) = split_id(takes_id_exec("todos", sub), &strs(&args[1..]));
    let parsed = parse(&flags, &strs(BOOLS), &strs(VALUES), &strs(INTS)).unwrap();
    let body = parsed.str("body", "");
    run_todo_command(p, sub, &id, &parsed, body, "me", 42, origin)
}

fn todos(p: &mut Project, args: &[&str]) -> Result<ToolOut, Error> {
    todos_with(p, args, None)
}

fn todo(r: Result<ToolOut, Error>) -> Todo {
    match r {
        Ok(ToolOut::Todo(t)) => t,
        _ => panic!("expected a todo"),
    }
}

fn list(p: &mut Project) -> Vec<Todo> {
    match todos(p, &["list", "--json"]) {
        Ok(ToolOut::Todos(v)) => v,
        _ => panic!("list failed"),
    }
}

#[test]
fn todos_create_list_json() {
    let mut p = project();
    assert!(todos(&mut p, &["create", "--title", "Hello", "--priority", "high"]).is_ok());
    let got = list(&mut p);
    assert_eq!(got.len(), 1);
    assert_eq!(got[0].title, "Hello");
}

#[test]
fn todos_list_markdown() {
    let mut p = project();
    todo(todos(&mut p, &["create", "--title", "Buy milk"]));
    let out = match todos(&mut p, &["list"]) {
        Ok(ToolOut::Todos(v)) => render_todos(&p, &v),
        _ => panic!("list failed"),
    };
    assert!(out.contains("Buy milk") && out.contains('#'), "markdown: {out:?}");
}

#[test]
fn todos_tag_routing() {
    let mut p = project();
    todo(todos(&mut p, &["create", "--title", "Tagged", "--tag", "a", "--tag", "b"]));
    let listed = list(&mut p);
    assert_eq!(listed.len(), 1);
    let id = listed[0].id.clone();

    todo(todos(&mut p, &["update", &id, "--tag", "c"]));
    assert_eq!(list(&mut p)[0].tags, vec!["c"], "update should replace tags");

    todo(todos(&mut p, &["add-tag", &id, "--tag", "d"]));
    let got = todo(todos(&mut p, &["get", &id, "--json"]));
    assert!(got.tags.contains(&"c".to_string()) && got.tags.contains(&"d".to_string()), "after add-tag: {:?}", got.tags);

    todo(todos(&mut p, &["remove-tag", &id, "--tag", "c"]));
    let got = todo(todos(&mut p, &["get", &id, "--json"]));
    assert!(!got.tags.contains(&"c".to_string()), "c not removed: {:?}", got.tags);
    assert!(got.tags.contains(&"d".to_string()), "d missing: {:?}", got.tags);
}

#[test]
fn todos_flags_after_id() {
    let mut p = project();
    todo(todos(&mut p, &["create", "--title", "Flag order"]));
    let id = list(&mut p)[0].id.clone();
    todo(todos(&mut p, &["update", &id, "--status", "in_progress"]));
    let got = todo(todos(&mut p, &["get", &id, "--json"]));
    assert_eq!(got.status, "in_progress");
}

#[test]
fn update_with_bad_github_value_changes_nothing() {
    let mut p = project();
    let t = todo(todos(&mut p, &["create", "--title", "x"]));
    match todos(&mut p, &["update", &t.id, "--title", "y", "--github", "maybe"]) {
        Err(Error::Other(m)) => assert_eq!(m, "--github must be on|off, got \"maybe\""),
        _ => panic!("expected a refusal"),
    }
    assert_eq!(p.todos[0].title, "x");
}

#[test]
fn update_without_fields_returns_the_todo() {
    let mut p = project();
    let t = todo(todos(&mut p, &["create", "--title", "x"]));
    let got = todo(todos(&mut p, &["update", &t.id]));
    assert_eq!(got.updated, t.updated);
    assert_eq!(got.title, "x");
}

#[test]
fn github_switch_links_to_origin() {
    let mut p = project();
    let t = todo(todos(&mut p, &["create", "--title", "x"]));
    let got = todo(todos_with(&mut p, &["update", &t.id, "--github", "on"], Some("git@github.com:o/r.git".to_string())));
    let link = got.github.expect("linked");
    assert_eq!(link.repo, "o/r");
    assert_eq!(link.number, 0);
}

#[test]
fn lock_uses_the_given_owner_and_pid() {
    let mut p = project();
    let t = todo(todos(&mut p, &["create", "--title", "x"]));
    let got = todo(todos(&mut p, &["lock", &t.id]));
    let l = got.lock.expect("locked");
    assert_eq!(l.owner, "me");
    assert_eq!(l.pid, 42);
    let got = todo(todos(&mut p, &["complete", &t.id]));
    assert!(got.lock.is_none(), "complete releases the lock by default");
}

#[test]
fn unknown_todo_subcommand_is_refused() {
    let mut p = project();
    match todos(&mut p, &["frobnicate"]) {
        Err(Error::Other(m)) => assert_eq!(m, "unknown todos subcommand: frobnicate"),
        _ => panic!("expected a refusal"),
    }
    assert!(matches!(todos(&mut p, &["get", "t_none"]), Err(Error::NotFound)));
}

#[test]
fn reopening_logs_the_stored_statuses() {
    let mut p = project();
    let t = todo(todos(&mut p, &["create", "--title", "x"]));
    todo(todos(&mut p, &["complete", &t.id]));
    todo(todos(&mut p, &["incomplete", &t.id]));
    let events: Vec<String> =
        p.list_comments(&t.id).unwrap().into_iter().filter(|c| c.kind == "event").map(|c| c.text).collect();
    assert_eq!(events, vec!["marked done".to_string(), "reopened (completed → open)".to_string()]);
}
