use tally::cli::{parse, split_id, takes_id_exec};
use tally::commands::{run_comment_command, CommentOut};
use tally::errors::Error;
use tally::project::Project;

fn strs(v: &[&str]) -> Vec<String> {
    v.iter().map(|s| s.to_string()).collect()
}

fn comments(p: &mut Project, args: &[&str]) -> Result<CommentOut, Error> {
    let sub = args[0];
    let (id, flags) = split_id(takes_id_exec("comments", sub), &strs(&args[1..]));
    let parsed = parse(&flags, &strs(&["json"]), &strs(&["project", "body", "section"]), &Vec::new()).unwrap();
    run_comment_command(p, sub, &id, &parsed)
}

fn refusal(r: Result<CommentOut, Error>) -> String {
    match r {
        Err(Error::Other(m)) => m,
        _ => panic!("expected a refusal"),
    }
}

#[test]
fn test_add_then_list() {
    let mut p = Project::new("/r".to_string(), "r".to_string(), "/s/r".to_string(), "agent".to_string());
    match comments(&mut p, &["add", "t_cli", "--project", "/r", "--body", "hello"]) {
        Ok(CommentOut::Added(c)) => assert!(c.text.contains("hello")),
        _ => panic!("add failed"),
    }
    match comments(&mut p, &["list", "t_cli", "--project", "/r", "--json"]) {
        Ok(CommentOut::Listed(v)) => {
            assert_eq!(v.len(), 1);
            assert_eq!(v[0].text, "hello");
        }
        _ => panic!("list failed"),
    }
}

#[test]
fn comment_commands_refuse_missing_arguments() {
    let mut p = Project::new("/r".to_string(), "r".to_string(), "/s/r".to_string(), "agent".to_string());
    assert_eq!(
        refusal(comments(&mut p, &["add", "--body", "x"])),
        "usage: tally comments add <target> --body <text> [--section <heading>]"
    );
    assert_eq!(refusal(comments(&mut p, &["add", "t_1"])), "comment body is required (--body)");
    assert_eq!(refusal(comments(&mut p, &["list"])), "usage: tally comments list <target>");
    assert_eq!(refusal(comments(&mut p, &["delete"])), "usage: tally comments delete <comment-id>");
    assert_eq!(refusal(comments(&mut p, &["tag"])), "unknown comments subcommand: tag");
    assert!(matches!(comments(&mut p, &["delete", "c_none"]), Err(Error::NotFound)));
    assert!(p.comments.is_empty());
}

#[test]
fn comment_delete_removes_it() {
    let mut p = Project::new("/r".to_string(), "r".to_string(), "/s/r".to_string(), "agent".to_string());
    let c = match comments(&mut p, &["add", "t_1", "--body", "x", "--section", "Plan"]) {
        Ok(CommentOut::Added(c)) => c,
        _ => panic!("add failed"),
    };
    assert_eq!(c.section, "Plan");
    assert!(matches!(comments(&mut p, &["delete", &c.id]), Ok(CommentOut::Deleted)));
    assert!(p.comments.is_empty());
}
