use tally::clock::{epoch_from_rfc3339, format_rfc3339, now};
use tally::errors::Error;
use tally::project::Project;
use tally::todos::{normalize_priority, normalize_status, GithubLink, TodoFilter, TodoUpdate};

fn new_project() -> Project {
    Project::new(
        "/tmp/tally-test/repo".to_string(),
        "repo".to_string(),
        "/tmp/tally-test/store/projects/repo-00000000".to_string(),
        "agent".to_string(),
    )
}

#[test]
fn test_create_get_todo() {
    let mut p = new_project();
    let td = p.create_todo("Rotate tokens", "body", "", Vec::new()).unwrap();
    assert_eq!(td.status, "open");
    assert_eq!(td.priority, "medium");
    let got = p.get_todo(&td.id).unwrap();
    assert_eq!(got.title, "Rotate tokens");
}

#[test]
fn test_status_normalized_and_rejected() {
    assert_eq!(normalize_status(" Open ").unwrap(), "open");
    assert_eq!(normalize_status("In-Progress").unwrap(), "in_progress");
    assert_eq!(normalize_status("in progress").unwrap(), "in_progress");
    assert_eq!(normalize_status("COMPLETED").unwrap(), "completed");
    assert!(normalize_status("closed").is_err());
    assert!(normalize_status("done").is_err());

    assert_eq!(normalize_priority(" HIGH ").unwrap(), "high");
    assert!(normalize_priority("urgent").is_err());

    let mut p = new_project();
    let td = p.create_todo("x", "", "", Vec::new()).unwrap();
    let mut u = TodoUpdate::default();
    u.status = Some("closed".into());
    assert!(p.update_todo(&td.id, u).is_err());
    assert_eq!(p.get_todo(&td.id).unwrap().status, "open");
    assert!(p.create_todo("y", "", "urgent", Vec::new()).is_err());
}

#[test]
fn test_complete_and_incomplete() {
    let mut p = new_project();
    let td = p.create_todo("x", "", "high", Vec::new()).unwrap();
    let done = p.complete_todo(&td.id, true).unwrap();
    assert_eq!(done.status, "completed");
    assert!(done.completed.is_some());
    let back = p.incomplete_todo(&td.id, false).unwrap();
    assert_eq!(back.status, "open");
    assert!(back.completed.is_none());
}

#[test]
fn test_delete_todo() {
    let mut p = new_project();
    let td = p.create_todo("x", "", "", Vec::new()).unwrap();
    p.delete_todo(&td.id).unwrap();
    assert!(matches!(p.get_todo(&td.id), Err(Error::NotFound)));
}

#[test]
fn test_list_filter_and_sort() {
    let mut p = new_project();
    let a = p.create_todo("a", "", "low", vec!["x".into()]).unwrap();
    let b = p.create_todo("b", "", "high", vec!["y".into()]).unwrap();
    p.complete_todo(&a.id, false).unwrap();

    let open = p
        .list_todos(TodoFilter {
            status: "open".into(),
            ..Default::default()
        })
        .unwrap();
    assert_eq!(open.len(), 1);
    assert_eq!(open[0].id, b.id);

    let tagged = p
        .list_todos(TodoFilter {
            tags: vec!["x".into()],
            ..Default::default()
        })
        .unwrap();
    assert_eq!(tagged.len(), 1);
    assert_eq!(tagged[0].id, a.id);

    let by_prio = p
        .list_todos(TodoFilter {
            sort: "priority".into(),
            ..Default::default()
        })
        .unwrap();
    assert_eq!(by_prio[0].priority, "high");
}

#[test]
fn test_update_replaces_tags_add_preserves() {
    let mut p = new_project();
    let td = p.create_todo("x", "", "", vec!["a".into(), "b".into()]).unwrap();
    let up = p
        .update_todo(
            &td.id,
            TodoUpdate {
                tags: Some(vec!["c".into()]),
                ..Default::default()
            },
        )
        .unwrap();
    assert_eq!(up.tags, vec!["c"], "update should replace tags");
    let add = p.add_todo_tag(&td.id, "d").unwrap();
    assert_eq!(add.tags.len(), 2, "add-tag should preserve: {:?}", add.tags);
}

#[test]
fn test_blockers_and_is_blocked() {
    let mut p = new_project();
    let dep = p.create_todo("dep", "", "", Vec::new()).unwrap();
    let main = p.create_todo("main", "", "", Vec::new()).unwrap();
    p.set_blockers(&main.id, vec![dep.id.clone()]).unwrap();

    let blocked = p
        .list_todos(TodoFilter {
            is_blocked: Some(true),
            ..Default::default()
        })
        .unwrap();
    assert_eq!(blocked.len(), 1);
    assert_eq!(blocked[0].id, main.id);

    p.complete_todo(&dep.id, false).unwrap();
    let still = p
        .list_todos(TodoFilter {
            is_blocked: Some(true),
            ..Default::default()
        })
        .unwrap();
    assert!(still.is_empty(), "completing dep should unblock: {still:?}");
}

#[test]
fn test_lock_ownership() {
    let mut p = new_project();
    let td = p.create_todo("x", "", "", Vec::new()).unwrap();
    p.lock_todo(&td.id, "robin", 42).unwrap();
    assert!(
        p.unlock_todo(&td.id, "other").is_err(),
        "non-owner unlock should fail"
    );
    p.unlock_todo(&td.id, "robin").unwrap();
}

#[test]
fn test_list_negative_offset_no_panic() {
    let mut p = new_project();
    p.create_todo("a", "", "", Vec::new()).unwrap();
    let got = p
        .list_todos(TodoFilter {
            offset: -1,
            ..Default::default()
        })
        .unwrap();
    assert_eq!(got.len(), 1, "negative offset should behave like 0");
}

#[test]
fn test_delete_todo_cascades_blockers() {
    let mut p = new_project();
    let dep = p.create_todo("dep", "", "", Vec::new()).unwrap();
    let main = p.create_todo("main", "", "", Vec::new()).unwrap();
    p.set_blockers(&main.id, vec![dep.id.clone()]).unwrap();

    p.delete_todo(&dep.id).unwrap();
    let got = p.get_todo(&main.id).unwrap();
    assert!(
        !got.blockers.contains(&dep.id),
        "expected dep removed from main's blockers, got {:?}",
        got.blockers
    );
    assert!(
        !p.is_blocked(&got),
        "main should no longer be blocked after dep was deleted"
    );
}

#[test]
fn test_update_todo_expected_updated_mismatch_fails() {
    let mut p = new_project();
    let td = p.create_todo("t", "body", "", Vec::new()).unwrap();
    let stale = format!("{}-stale", td.updated);
    let err = p
        .update_todo(
            &td.id,
            TodoUpdate {
                title: Some("clobber".into()),
                expected_updated: Some(stale),
                ..Default::default()
            },
        )
        .unwrap_err();
    assert!(matches!(err, Error::ConcurrentEdit), "err = {err:?}, want ConcurrentEdit");
    let got = p.get_todo(&td.id).unwrap();
    assert_eq!(got.title, "t", "title should be unchanged");
}

#[test]
fn test_update_todo_expected_updated_match_succeeds() {
    let mut p = new_project();
    let td = p.create_todo("t", "body", "", Vec::new()).unwrap();
    let got = p
        .update_todo(
            &td.id,
            TodoUpdate {
                title: Some("new".into()),
                expected_updated: Some(td.updated.clone()),
                ..Default::default()
            },
        )
        .unwrap();
    assert_eq!(got.title, "new");
}

#[test]
fn test_update_todo_none_expected_updated_skips_guard() {
    let mut p = new_project();
    let td = p.create_todo("t", "body", "", Vec::new()).unwrap();
    p.update_todo(
        &td.id,
        TodoUpdate {
            title: Some("unguarded".into()),
            ..Default::default()
        },
    )
    .expect("None guard must never fail");
}

#[test]
fn test_todo_attribution_stamped() {
    let mut p = new_project();
    p.actor = "robin".to_string();
    let td = p.create_todo("x", "", "", Vec::new()).unwrap();
    assert_eq!(td.created_by, "robin");
    assert_eq!(td.updated_by, "robin");
    p.actor = "jason".to_string();
    let up = p.add_todo_tag(&td.id, "t").unwrap();
    assert_eq!(up.created_by, "robin", "creator must not change on edit");
    assert_eq!(up.updated_by, "jason", "editor should be the mutating actor");
}

#[test]
fn test_format_rfc3339_known_values() {
    assert_eq!(format_rfc3339(0), "1970-01-01T00:00:00Z");
    assert_eq!(format_rfc3339(951_782_400), "2000-02-29T00:00:00Z");
    assert_eq!(format_rfc3339(1_700_000_000), "2023-11-14T22:13:20Z");
}

#[test]
fn test_set_github_toggle() {
    let mut p = new_project();
    let td = p.create_todo("sync me", "", "", Vec::new()).unwrap();

    // No origin remote yet -> linking fails, leaves the todo unlinked.
    assert!(p.set_github(&td.id, true, None).is_err());
    assert!(p.get_todo(&td.id).unwrap().github.is_none());

    let origin = Some("git@github.com:owner/name.git".to_string());
    let linked = p.set_github(&td.id, true, origin.clone()).unwrap();
    let link = linked.github.unwrap();
    assert_eq!(link.repo, "owner/name");
    assert_eq!(link.number, 0);
    assert!(!link.paused);

    let paused = p.set_github(&td.id, false, origin.clone()).unwrap();
    let link = paused.github.unwrap();
    assert!(link.paused);
    assert_eq!(link.repo, "owner/name");

    let retick = p.set_github(&td.id, true, origin).unwrap();
    assert!(!retick.github.unwrap().paused);
}

#[test]
fn test_rfc3339_epoch_roundtrip() {
    let e = epoch_from_rfc3339("2026-07-10T12:00:00Z").unwrap();
    assert_eq!(format_rfc3339(e), "2026-07-10T12:00:00Z");
    let n = now();
    assert_eq!(format_rfc3339(epoch_from_rfc3339(&n).unwrap()), n);
    assert_eq!(epoch_from_rfc3339("2026-07-10"), None);
    assert_eq!(epoch_from_rfc3339(""), None);
    assert_eq!(epoch_from_rfc3339("2026-07-10T12:00:00+00:00"), None);
    assert_eq!(epoch_from_rfc3339("2026-07-10T12X00Y00Z"), None);
    assert_eq!(epoch_from_rfc3339("2026-07-10T12:00:00X"), None);
}

#[test]
fn test_update_github_link_does_not_bump_updated() {
    let mut p = new_project();
    let td = p.create_todo("x", "", "", Vec::new()).unwrap();
    let before = td.updated.clone();
    p.update_github_link(
        &td.id,
        GithubLink {
            repo: "o/n".into(),
            number: 7,
            last_pushed: "t".into(),
            last_comment_pull: String::new(),
            paused: false,
        },
    )
    .unwrap();
    let got = p.get_todo(&td.id).unwrap();
    assert_eq!(got.github.unwrap().number, 7);
    assert_eq!(got.updated, before, "sync writeback must not bump updated");
}

#[test]
fn test_update_github_link_preserves_paused() {
    let mut p = new_project();
    let origin = Some("git@github.com:o/n.git".to_string());
    let td = p.create_todo("x", "", "", Vec::new()).unwrap();
    p.set_github(&td.id, true, origin.clone()).unwrap();
    p.set_github(&td.id, false, origin).unwrap();
    p.update_github_link(
        &td.id,
        GithubLink {
            repo: "o/n".into(),
            number: 7,
            last_pushed: "t".into(),
            last_comment_pull: String::new(),
            paused: false,
        },
    )
    .unwrap();
    let link = p.get_todo(&td.id).unwrap().github.unwrap();
    assert_eq!(link.number, 7, "sync fields still applied");
    assert!(link.paused, "concurrent un-tick must be preserved");
}

// Laws and edge cases on concrete values.

#[test]
fn get_after_create_returns_created() {
    let mut p = new_project();
    let td = p.create_todo("A", "b", "low", vec!["t".into()]).unwrap();
    let got = p.get_todo(&td.id).unwrap();
    assert_eq!(got.title, "A");
    assert_eq!(got.body, "b");
    assert_eq!(got.priority, "low");
    assert_eq!(got.tags, vec!["t"]);
    assert_eq!(got.created, td.created);
}

#[test]
fn add_tag_twice_is_add_once() {
    let mut p = new_project();
    let td = p.create_todo("x", "", "", vec!["a".into()]).unwrap();
    let once = p.add_todo_tag(&td.id, "b").unwrap();
    let twice = p.add_todo_tag(&td.id, "b").unwrap();
    assert_eq!(once.tags, twice.tags);
    assert_eq!(twice.tags, vec!["a", "b"]);
}

#[test]
fn missing_todo_is_not_found_everywhere() {
    let mut p = new_project();
    assert!(matches!(p.get_todo("t_nope"), Err(Error::NotFound)));
    assert!(matches!(p.delete_todo("t_nope"), Err(Error::NotFound)));
    assert!(matches!(p.complete_todo("t_nope", true), Err(Error::NotFound)));
    assert!(matches!(p.add_todo_tag("t_nope", "x"), Err(Error::NotFound)));
}

#[test]
fn unlock_error_names_owner() {
    let mut p = new_project();
    let td = p.create_todo("x", "", "", Vec::new()).unwrap();
    p.lock_todo(&td.id, "robin", 1).unwrap();
    match p.unlock_todo(&td.id, "other") {
        Err(Error::Other(m)) => assert_eq!(m, "lock owned by robin"),
        other => panic!("unexpected {other:?}"),
    }
}

#[test]
fn invalid_status_message_quotes_input() {
    match normalize_status("closed") {
        Err(Error::Other(m)) => {
            assert_eq!(m, "invalid status \"closed\": expected open, in_progress, or completed")
        }
        other => panic!("unexpected {other:?}"),
    }
    match normalize_priority("urgent") {
        Err(Error::Other(m)) => assert_eq!(m, "invalid priority \"urgent\": expected high, medium, or low"),
        other => panic!("unexpected {other:?}"),
    }
}

#[test]
fn list_sort_orders_and_paging() {
    let mut p = new_project();
    let a = p.create_todo("a", "", "low", Vec::new()).unwrap();
    let b = p.create_todo("b", "", "medium", Vec::new()).unwrap();
    let c = p.create_todo("c", "", "high", Vec::new()).unwrap();
    let by_prio = p
        .list_todos(TodoFilter { sort: "priority".into(), ..Default::default() })
        .unwrap();
    let ids: Vec<String> = by_prio.iter().map(|t| t.id.clone()).collect();
    assert_eq!(ids, vec![c.id.clone(), b.id.clone(), a.id.clone()]);
    let page = p
        .list_todos(TodoFilter { sort: "priority".into(), offset: 1, limit: 1, ..Default::default() })
        .unwrap();
    assert_eq!(page.len(), 1);
    assert_eq!(page[0].id, b.id);
    let past = p
        .list_todos(TodoFilter { offset: 10, ..Default::default() })
        .unwrap();
    assert!(past.is_empty());
    let q = p
        .list_todos(TodoFilter { query: "B".into(), ..Default::default() })
        .unwrap();
    assert_eq!(q.len(), 1);
    assert_eq!(q[0].id, b.id);
}

#[test]
fn todo_tags_sorted_unique() {
    let mut p = new_project();
    p.create_todo("a", "", "", vec!["z".into(), "m".into()]).unwrap();
    p.create_todo("b", "", "", vec!["m".into(), "a".into()]).unwrap();
    assert_eq!(p.todo_tags().unwrap(), vec!["a", "m", "z"]);
}

#[test]
fn ids_have_prefix() {
    let mut p = new_project();
    let td = p.create_todo("x", "", "", Vec::new()).unwrap();
    assert!(td.id.starts_with("t_"));
    assert_eq!(td.created.len(), 20);
}
