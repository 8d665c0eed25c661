use tally::comments::Comment;
use tally::sync::{
    link_created, link_synced, parse_repo, plan_actions, sync_start, url_number_exec, Action, GhComment, IssueSnapshot,
    IssueState, SyncStart,
};
use tally::todos::{GithubLink, Todo};

fn linked(number: i64, last_pushed: &str, last_comment_pull: &str) -> GithubLink {
    GithubLink {
        repo: "o/n".into(),
        number,
        last_pushed: last_pushed.into(),
        last_comment_pull: last_comment_pull.into(),
        paused: false,
    }
}

fn todo_at(status: &str, updated: &str) -> Todo {
    let mut t = Todo::default();
    t.id = "t_1".into();
    t.title = "T".into();
    t.status = status.into();
    t.updated = updated.into();
    t
}

fn note(id: &str, author: &str, gh_id: i64) -> Comment {
    let mut c = Comment::default();
    c.id = id.into();
    c.author = author.into();
    c.kind = "note".into();
    c.github_comment_id = gh_id;
    c.text = "body".into();
    c
}

#[test]
fn test_plan_push_title_body_when_tally_newer() {
    let t = todo_at("open", "2026-07-12T02:00:00Z");
    let link = linked(5, "2026-07-12T01:00:00Z", "");
    let snap = IssueSnapshot::default();
    let acts = plan_actions(&t, &link, &Vec::new(), &snap);
    assert_eq!(acts, vec![Action::EditIssue]);
}

#[test]
fn test_plan_push_close_when_completed_and_issue_open() {
    let t = todo_at("completed", "2026-07-12T02:00:00Z");
    let link = linked(5, "2026-07-12T01:00:00Z", "");
    let snap = IssueSnapshot::default();
    let acts = plan_actions(&t, &link, &Vec::new(), &snap);
    assert_eq!(acts, vec![Action::EditIssue, Action::CloseIssue]);
}

#[test]
fn test_plan_pull_close_when_gh_wins() {
    let t = todo_at("open", "2026-07-12T01:00:00Z");
    let link = linked(5, "2026-07-12T01:00:00Z", "");
    let snap = IssueSnapshot {
        state: IssueState::Closed,
        closed_by: "octocat".into(),
        comments: vec![],
    };
    let acts = plan_actions(&t, &link, &Vec::new(), &snap);
    assert_eq!(acts, vec![Action::CompleteTodo { by: "octocat".into() }]);
}

#[test]
fn test_plan_import_new_comment_but_not_echo() {
    let t = todo_at("open", "2026-07-12T01:00:00Z");
    let link = linked(5, "2026-07-12T01:00:00Z", "2026-07-12T00:00:00Z");
    let snap = IssueSnapshot {
        state: IssueState::Open,
        closed_by: String::new(),
        comments: vec![
            GhComment {
                id: 100,
                author: "octocat".into(),
                created: "2026-07-12T01:30:00Z".into(),
                body: "new".into(),
            },
            GhComment {
                id: 200,
                author: "me".into(),
                created: "2026-07-12T01:31:00Z".into(),
                body: "echo".into(),
            },
        ],
    };
    let local = vec![note("c_local", "you", 200)];
    let acts = plan_actions(&t, &link, &local, &snap);
    assert_eq!(acts, vec![Action::ImportComment(snap.comments[0].clone())]);
}

#[test]
fn test_plan_push_local_note_but_not_pulled_or_event() {
    let t = todo_at("open", "2026-07-12T01:00:00Z");
    let link = linked(5, "2026-07-12T01:00:00Z", "2026-07-12T00:00:00Z");
    let snap = IssueSnapshot::default();
    let mut event = note("c_ev", "you", 0);
    event.kind = "event".into();
    let local = vec![
        note("c_push", "you", 0),
        note("c_pulled", "gh:octocat", 100),
        event,
    ];
    let acts = plan_actions(&t, &link, &local, &snap);
    assert_eq!(acts, vec![Action::PushComment { comment_id: "c_push".into() }]);
}

#[test]
fn test_parse_repo_forms() {
    assert_eq!(parse_repo("git@github.com:owner/name.git").as_deref(), Some("owner/name"));
    assert_eq!(parse_repo("https://github.com/owner/name.git").as_deref(), Some("owner/name"));
    assert_eq!(parse_repo("https://github.com/owner/name").as_deref(), Some("owner/name"));
    assert_eq!(parse_repo("ssh://git@github.com/owner/name.git").as_deref(), Some("owner/name"));
    assert_eq!(parse_repo("  https://github.com/owner/name.git\n").as_deref(), Some("owner/name"));
    assert_eq!(parse_repo("not-a-url"), None);
    assert_eq!(parse_repo(""), None);
}

#[test]
fn plan_reopens_issue_when_tally_reopened() {
    let t = todo_at("open", "2026-07-12T02:00:00Z");
    let link = linked(5, "2026-07-12T01:00:00Z", "");
    let snap = IssueSnapshot {
        state: IssueState::Closed,
        closed_by: "x".into(),
        comments: vec![],
    };
    let acts = plan_actions(&t, &link, &Vec::new(), &snap);
    assert_eq!(acts, vec![Action::EditIssue, Action::ReopenIssue]);
}

#[test]
fn plan_reopens_todo_when_gh_reopened() {
    let t = todo_at("completed", "2026-07-12T01:00:00Z");
    let link = linked(5, "2026-07-12T01:00:00Z", "");
    let snap = IssueSnapshot::default();
    let acts = plan_actions(&t, &link, &Vec::new(), &snap);
    assert_eq!(acts, vec![Action::ReopenTodo { by: String::new() }]);
}

#[test]
fn plan_nothing_when_in_step() {
    let t = todo_at("open", "2026-07-12T01:00:00Z");
    let link = linked(5, "2026-07-12T01:00:00Z", "");
    let acts = plan_actions(&t, &link, &Vec::new(), &IssueSnapshot::default());
    assert!(acts.is_empty());
}

fn new_project() -> tally::project::Project {
    tally::project::Project::new(
        "/tmp/tally-test/repo".to_string(),
        "repo".to_string(),
        "/tmp/tally-test/store/projects/repo-00000000".to_string(),
        "agent".to_string(),
    )
}

#[test]
fn sync_human_says_nothing_to_sync_when_no_links() {
    let p = new_project();
    assert!(!p.has_active_links());
    let out = tally::sync::sync_report_text(&tally::sync::SyncReport::default());
    assert!(out.contains("nothing to sync"), "{out}");
}

#[test]
fn sync_human_reports_gh_unavailable_with_error_lines() {
    let rep = tally::sync::SyncReport {
        errors: vec!["gh unavailable".into()],
        ..Default::default()
    };
    let out = tally::sync::sync_report_text(&rep);
    assert!(out.contains("sync skipped: gh unavailable"), "{out}");
    assert!(out.contains("  ! gh unavailable"), "{out}");
    assert!(!out.contains("nothing to sync"), "{out}");
}

#[test]
fn sync_human_prints_full_summary_when_gh_available() {
    let rep = tally::sync::SyncReport {
        gh_available: true,
        checked: 1,
        created: 1,
        ..Default::default()
    };
    let out = tally::sync::sync_report_text(&rep);
    assert_eq!(
        out,
        "synced 1 todo(s): 1 created, 0 pushed, 0 state change(s), 0 comment(s) in, 0 out\n"
    );
    let rep2 = tally::sync::SyncReport {
        gh_available: true,
        errors: vec!["x".into(), "y".into()],
        ..Default::default()
    };
    assert!(tally::sync::sync_report_text(&rep2).contains(", 2 error(s)\n  ! x\n  ! y\n"));
}

#[test]
fn active_links_follow_pause() {
    let mut p = new_project();
    let t = p.create_todo("x", "", "", Vec::new()).unwrap();
    p.set_github(&t.id, true, Some("git@github.com:o/n.git".into())).unwrap();
    assert!(p.has_active_links());
    p.set_github(&t.id, false, None).unwrap();
    assert!(!p.has_active_links());
}

#[test]
fn url_numbers_come_from_trailing_digits() {
    assert_eq!(url_number_exec("https://github.com/o/r/issues/12"), Some(12));
    assert_eq!(url_number_exec("https://github.com/o/r/issues/12#issuecomment-3456"), Some(3456));
    assert_eq!(url_number_exec("https://github.com/o/r/issues/"), None);
    assert_eq!(url_number_exec(""), None);
    assert_eq!(url_number_exec("x/99999999999999999999"), None, "too large for i64");
}

#[test]
fn pulled_and_pushed_comments_are_recorded() {
    let mut p = tally::project::Project::new(
        "/tmp/tally-sync/repo".to_string(),
        "repo".to_string(),
        "/tmp/tally-sync/store".to_string(),
        "robin".to_string(),
    );
    let t = p.create_todo("linked", "", "", Vec::new()).unwrap();
    let gc = tally::sync::GhComment {
        id: 77,
        author: "octo".to_string(),
        created: "2026-01-01T00:00:00Z".to_string(),
        body: "from github".to_string(),
    };
    let c = p.import_gh_comment(&t.id, &gc);
    assert_eq!(c.author, "gh:octo");
    assert_eq!(c.text, "from github");
    assert_eq!(c.github_comment_id, 77);
    assert_eq!(p.actor, "robin", "the store's actor is restored");
    assert_eq!(p.comments.len(), 1);
    assert_eq!(p.comments[0].github_comment_id, 77);

    let mine = p.add_comment(&t.id, "", "local note").unwrap();
    assert_eq!(p.comment_text(&mine.id).as_deref(), Some("local note"));
    assert_eq!(p.comment_text("c_missing"), None);
    p.mark_comment_pushed(&mine.id, 91);
    assert_eq!(p.comments[1].github_comment_id, 91);
    p.mark_comment_pushed("c_missing", 5);
    assert_eq!(p.comments[0].github_comment_id, 77);
}

fn bare_link(number: i64) -> GithubLink {
    GithubLink {
        repo: "o/r".to_string(),
        number,
        last_pushed: String::new(),
        last_comment_pull: String::new(),
        paused: false,
    }
}

#[test]
fn sync_starts_by_creating_an_issue_only_without_a_number() {
    assert_eq!(sync_start(&bare_link(0)), SyncStart::CreateIssue);
    assert_eq!(sync_start(&bare_link(7)), SyncStart::Reconcile);
}

#[test]
fn created_link_takes_the_issue_number_and_stamps() {
    let l = link_created(
        &bare_link(0),
        "https://github.com/o/r/issues/42",
        "2026-01-02T00:00:00Z",
        "2026-01-03T00:00:00Z",
    )
    .unwrap();
    assert_eq!(l.number, 42);
    assert_eq!(l.repo, "o/r");
    assert_eq!(l.last_pushed, "2026-01-02T00:00:00Z");
    assert_eq!(l.last_comment_pull, "2026-01-03T00:00:00Z");
    assert!(link_created(&bare_link(0), "https://github.com/o/r/issues/", "a", "b").is_none());
}

#[test]
fn synced_link_keeps_number_and_stamps() {
    let l = link_synced(&bare_link(9), "u", "n");
    assert_eq!((l.number, l.last_pushed.as_str(), l.last_comment_pull.as_str()), (9, "u", "n"));
    assert!(!l.paused);
}

#[test]
fn sync_reports_json_when_no_synced_todos() {
    let p = new_project();
    assert!(!p.has_active_links());
    let rep = tally::sync::SyncReport::default();
    assert!(!rep.gh_available);
    assert_eq!(rep.checked, 0);
    assert!(rep.errors.is_empty());
}
