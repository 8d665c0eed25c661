use tally::cli::{parse, split_id, takes_id_exec};
use tally::commands::{pad_read_text, run_pad_command};
use tally::errors::Error;
use tally::mcp::ToolOut;
use tally::project::Project;
use tally::scratchpads::{EditTarget, Scratchpad};

const BOOLS: &[&str] = &["json", "include-archived", "newline", "case-sensitive", "confirm"];
const VALUES: &[&str] = &[
    "project", "name", "content", "content-file", "mode", "section-heading", "heading", "query", "scope", "path",
    "target", "tag", "expected-revision", "offset", "limit", "context-lines", "lines",
];
const INTS: &[&str] = &["expected-revision", "offset", "limit", "context-lines", "lines"];

fn strs(v: &[&str]) -> Vec<String> {
    v.iter().map(|s| s.to_string()).collect()
}

fn project() -> Project {
    Project::new("/r".to_string(), "r".to_string(), "/s/r".to_string(), "agent".to_string())
}

fn scratch_with(p: &mut Project, args: &[&str], target: Result<EditTarget, String>) -> Result<ToolOut, Error> {
    let sub = args[0];
    let (id, flags) = split_id(takes_id_exec("scratchpads", sub), &strs(&args[1..]));
    let parsed = parse(&flags, &strs(BOOLS), &strs(VALUES), &strs(INTS)).unwrap();
    let body = parsed.str("content", "");
    run_pad_command(p, sub, &id, &parsed, body, target)
}

fn scratch(p: &mut Project, args: &[&str]) -> Result<ToolOut, Error> {
    scratch_with(p, args, Err("expected value".to_string()))
}

fn pad(r: Result<ToolOut, Error>) -> Scratchpad {
    match r {
        Ok(ToolOut::Pad(s)) => s,
        _ => panic!("expected a pad"),
    }
}

fn other_message(r: Result<ToolOut, Error>) -> String {
    match r {
        Err(Error::Other(m)) => m,
        _ => panic!("expected a refusal"),
    }
}

#[test]
fn scratchpads_create_read_list() {
    let mut p = project();
    let s = pad(scratch(&mut p, &["create", "--name", "Plan", "--content", "# Plan\nbody", "--json"]));
    match scratch(&mut p, &["read", &s.id, "--mode", "content"]) {
        Ok(ToolOut::Read(_, text)) => assert!(text.contains("body"), "read: {text:?}"),
        _ => panic!("read failed"),
    }
    match scratch(&mut p, &["list", "--json"]) {
        Ok(ToolOut::Pads(v)) => assert!(v.iter().any(|x| x.title == "Plan")),
        _ => panic!("list failed"),
    }
}

#[test]
fn scratchpads_revision_guard() {
    let mut p = project();
    let s = pad(scratch(&mut p, &["create", "--name", "x", "--content", "# x\n", "--json"]));
    let r = scratch(&mut p, &["append", &s.id, "--content", "more", "--expected-revision", "99"]);
    assert!(matches!(r, Err(Error::RevisionMismatch)), "stale revision append should fail");
}

#[test]
fn scratchpads_clear_requires_expected_revision() {
    let mut p = project();
    let s = pad(scratch(&mut p, &["create", "--name", "x", "--content", "# x\n", "--json"]));
    let r = scratch(&mut p, &["clear", &s.id]);
    assert_eq!(other_message(r), "--expected-revision is required for clear");
    assert_eq!(p.pads[0].content, "# x\n");
}

#[test]
fn guarded_subcommands_all_need_a_revision() {
    let mut p = project();
    let s = pad(scratch(&mut p, &["create", "--name", "x", "--content", "# x\n"]));
    for sub in ["update", "rename", "edit", "clear", "archive", "unarchive", "delete"] {
        let r = scratch(&mut p, &[sub, &s.id, "--confirm"]);
        assert_eq!(other_message(r), format!("--expected-revision is required for {sub}"));
    }
    assert_eq!(p.pads[0].revision, 1);
}

#[test]
fn delete_needs_confirm() {
    let mut p = project();
    let s = pad(scratch(&mut p, &["create", "--name", "x", "--content", "# x\n"]));
    let r = scratch(&mut p, &["delete", &s.id, "--expected-revision", "1"]);
    assert_eq!(other_message(r), "delete requires --confirm");
    assert_eq!(p.pads.len(), 1);
    let r = scratch(&mut p, &["delete", &s.id, "--expected-revision", "1", "--confirm"]);
    assert!(matches!(r, Ok(ToolOut::Nothing)));
    assert!(p.pads.is_empty());
}

#[test]
fn unknown_pad_subcommand_is_refused() {
    let mut p = project();
    assert_eq!(other_message(scratch(&mut p, &["frobnicate"])), "unknown scratchpads subcommand: frobnicate");
}

#[test]
fn append_and_tail_defaults() {
    let mut p = project();
    let s = pad(scratch(&mut p, &["create", "--name", "x", "--content", "# x\na\nb"]));
    let s2 = pad(scratch(&mut p, &["append", &s.id, "--content", "c", "--newline"]));
    assert_eq!(s2.revision, 2);
    assert_eq!(s2.content, "# x\na\nb\nc");
    match scratch(&mut p, &["tail", &s.id, "--lines", "2"]) {
        Ok(ToolOut::Tail(t, n)) => {
            assert_eq!(t, "b\nc");
            assert_eq!(n, 4);
        }
        _ => panic!("tail failed"),
    }
    match scratch(&mut p, &["tail", &s.id]) {
        Ok(ToolOut::Tail(t, _)) => assert_eq!(t, "# x\na\nb\nc"),
        _ => panic!("tail failed"),
    }
}

#[test]
fn update_changes_only_given_fields() {
    let mut p = project();
    let s = pad(scratch(&mut p, &["create", "--name", "x", "--content", "# x\n", "--tag", "a"]));
    let u = pad(scratch(&mut p, &["update", &s.id, "--name", "y", "--expected-revision", "1"]));
    assert_eq!(u.title, "y");
    assert_eq!(u.content, "# x\n");
    assert_eq!(u.tags, vec!["a"]);
}

#[test]
fn edit_with_bad_target_is_refused() {
    let mut p = project();
    let s = pad(scratch(&mut p, &["create", "--name", "x", "--content", "# x\n"]));
    let r = scratch_with(&mut p, &["edit", &s.id, "--expected-revision", "1"], Err("eof".to_string()));
    assert_eq!(other_message(r), "bad --target json: eof");
    let t = EditTarget { kind: "line_range".to_string(), section_heading: String::new(), offset: 0, limit: 1 };
    let e = pad(scratch_with(&mut p, &["edit", &s.id, "--expected-revision", "1", "--content", "new"], Ok(t)));
    assert_eq!(e.revision, 2);
}

#[test]
fn save_and_load_resolve_against_the_project() {
    let mut p = project();
    let s = pad(scratch(&mut p, &["create", "--name", "x", "--content", "# x\nbody"]));
    match scratch(&mut p, &["save-to-file", &s.id, "--path", "out.md"]) {
        Ok(ToolOut::Save(text, path)) => {
            assert_eq!(path, "/r/out.md");
            assert!(text.contains("body"));
        }
        _ => panic!("save failed"),
    }
    match scratch(&mut p, &["load-from-file", "--path", "in.md"]) {
        Ok(ToolOut::Load(path)) => assert_eq!(path, "/r/in.md"),
        _ => panic!("load failed"),
    }
}

#[test]
fn full_read_text_appends_comments() {
    let mut p = project();
    let s = pad(scratch(&mut p, &["create", "--name", "x", "--content", "# x\n"]));
    assert_eq!(pad_read_text(&p, &s.id, "full", "# x\n"), "# x\n\n");
    p.add_comment(&s.id, "", "looks good").unwrap();
    let full = pad_read_text(&p, &s.id, "full", "# x\n");
    assert!(full.starts_with("# x\n\n\n---\n## Comments\n\n"), "{full:?}");
    assert!(full.contains("looks good"));
    assert_eq!(pad_read_text(&p, &s.id, "content", "# x\n"), "# x\n\n");
}
