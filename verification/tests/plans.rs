use tally::plans::{
    config_dir_from, first_heading, is_under_root, load_plan_paths, load_plan_paths_text, plans_from,
    visible_plans, Plan, PlanFile,
};

fn file(path: &str, mod_time: u64, content: &str) -> PlanFile {
    PlanFile {
        path: path.to_string(),
        mod_time,
        content: Some(content.to_string()),
    }
}

fn rel_paths(plans: &[Plan]) -> Vec<String> {
    let mut v: Vec<String> = plans.iter().map(|p| p.rel_path.clone()).collect();
    v.sort();
    v
}

#[test]
fn load_doc_paths_parses_file() {
    let got = load_plan_paths(None, Some("# my docs\ndocs/plans\n\n  docs/notes  \n".to_string()));
    assert_eq!(got, vec!["docs/plans", "docs/notes"]);
}

#[test]
fn load_doc_paths_defaults_when_absent() {
    let got = load_plan_paths(None, None);
    assert_eq!(
        got,
        vec!["docs/superpowers/specs", "docs/superpowers/plans", "docs/solutions"]
    );
}

#[test]
fn load_doc_paths_defaults_when_empty() {
    let got = load_plan_paths(None, Some("# only comments\n\n".to_string()));
    assert_eq!(got.len(), 3, "empty config should fall back to 3 defaults, got {got:?}");
}

#[test]
fn load_plan_paths_prefers_plan_paths_then_falls_back_to_doc_paths() {
    let got = load_plan_paths(None, Some("docs/legacy\n".to_string()));
    assert_eq!(got, vec!["docs/legacy"]);
    let got = load_plan_paths(Some("docs/new\n".to_string()), Some("docs/legacy\n".to_string()));
    assert_eq!(got, vec!["docs/new"]);
}

#[test]
fn load_plan_paths_text_is_one_per_line() {
    assert_eq!(
        load_plan_paths_text(Some("a\n# c\nb".to_string()), None),
        "a\nb\n"
    );
}

#[test]
fn config_file_prefers_plugin_config_dir() {
    let got = config_dir_from(Some("/plug".to_string()), Some("/x".to_string()), Some("/h".to_string()));
    assert_eq!(got, Some("/plug".to_string()));
}

#[test]
fn config_file_xdg_fallback() {
    let got = config_dir_from(None, Some("/x".to_string()), Some("/h".to_string()));
    assert_eq!(got, Some("/x/tally".to_string()));
}

#[test]
fn config_file_home_fallback() {
    let got = config_dir_from(None, None, Some("/h".to_string()));
    assert_eq!(got, Some("/h/.config/tally".to_string()));
}

#[test]
fn list_collects_configured_markdown_sorted_by_mtime() {
    let h: u64 = 3_600_000_000_000;
    let now: u64 = 100 * h;
    let files = vec![
        file("/r/docs/specs/old.md", now - 2 * h, "# Old Spec\nbody"),
        file("/r/docs/specs/new.md", now - 60_000_000_000, "# New Spec\nbody"),
        file("/r/docs/notes/note.md", now - h / 2, "plain first line\n"),
        file("/r/docs/specs/readme.txt", now, "not markdown"),
        file("/r/other/skip.md", now, "# unconfigured dir"),
    ];
    let paths = vec![
        "docs/specs".to_string(),
        "docs/notes".to_string(),
        "docs/missing".to_string(),
    ];
    let got = plans_from("/r", &paths, &files);
    assert_eq!(got.len(), 3, "want 3 plans, got {got:?}");
    assert_eq!(got[0].rel_path, "docs/specs/new.md", "first (most recent)");
    assert_eq!(got[0].heading, "New Spec");
    assert_eq!(got[2].rel_path, "docs/specs/old.md");
    let note = got.iter().find(|d| d.rel_path == "docs/notes/note.md").unwrap();
    assert_eq!(note.heading, "plain first line");
}

#[test]
fn glob_star_selects_subset() {
    let files = vec![
        file("/r/docs/a-plans/x.md", 1, "# X\n"),
        file("/r/docs/b-plans/y.md", 1, "# Y\n"),
        file("/r/docs/notes/z.md", 1, "# Z\n"),
    ];
    let got = plans_from("/r", &vec!["docs/*-plans/".to_string()], &files);
    assert_eq!(rel_paths(&got), vec!["docs/a-plans/x.md", "docs/b-plans/y.md"]);
}

#[test]
fn glob_double_star_any_depth() {
    let files = vec![
        file("/r/design/a.md", 1, "# A\n"),
        file("/r/src/ui/design/b.md", 1, "# B\n"),
        file("/r/docs/other/c.md", 1, "# C\n"),
    ];
    let got = plans_from("/r", &vec!["**/design/*.md".to_string()], &files);
    assert_eq!(rel_paths(&got), vec!["design/a.md", "src/ui/design/b.md"]);
}

#[test]
fn negation_excludes() {
    let files = vec![
        file("/r/docs/a.md", 1, "# A\n"),
        file("/r/docs/archive/old.md", 1, "# Old\n"),
    ];
    let paths = vec!["docs/**".to_string(), "!docs/archive/**".to_string()];
    let got = plans_from("/r", &paths, &files);
    assert_eq!(rel_paths(&got), vec!["docs/a.md"]);
}

#[test]
fn bare_dir_still_recursive_and_backcompat() {
    let files = vec![
        file("/r/docs/plans/a.md", 1, "# A\n"),
        file("/r/docs/plans/deep/b.md", 1, "# B\n"),
        file("/r/other/c.md", 1, "# C\n"),
    ];
    let got = plans_from("/r", &vec!["docs/plans".to_string()], &files);
    assert_eq!(rel_paths(&got), vec!["docs/plans/a.md", "docs/plans/deep/b.md"]);
}

#[test]
fn non_md_filtered() {
    let files = vec![
        file("/r/docs/a.md", 1, "# A\n"),
        file("/r/docs/readme.txt", 1, "not markdown"),
        file("/r/docs/UPPER.MD", 1, "# U\n"),
    ];
    let got = plans_from("/r", &vec!["docs/**".to_string()], &files);
    assert_eq!(rel_paths(&got), vec!["docs/UPPER.MD", "docs/a.md"]);
}

#[test]
fn absolute_and_parent_lines_match_nothing() {
    let files = vec![file("/r/docs/plans/a.md", 1, "# A\n")];
    let paths = vec![
        "docs/plans".to_string(),
        "/".to_string(),
        "../".to_string(),
        "docs/../../outside".to_string(),
    ];
    let got = plans_from("/r", &paths, &files);
    assert_eq!(rel_paths(&got), vec!["docs/plans/a.md"]);
}

#[test]
fn first_heading_takes_heading_or_first_line() {
    assert_eq!(first_heading("\n\n## Title  \nbody"), "Title");
    assert_eq!(first_heading("plain first line\n# later"), "later");
    assert_eq!(first_heading("\n  plain first line \nsecond"), "plain first line");
    assert_eq!(first_heading(""), "");
}

#[test]
fn visible_plans_filters_case_insensitively() {
    let files = vec![
        file("/r/docs/Alpha.md", 2, "# Intro\n"),
        file("/r/docs/b.md", 1, "# Beta HEADING\n"),
    ];
    let all = plans_from("/r", &vec!["docs".to_string()], &files);
    assert_eq!(visible_plans(&all, "").len(), 2);
    let by_path = visible_plans(&all, "alpha");
    assert_eq!(by_path.len(), 1);
    assert_eq!(by_path[0].rel_path, "docs/Alpha.md");
    let by_heading = visible_plans(&all, "heading");
    assert_eq!(by_heading.len(), 1);
    assert_eq!(by_heading[0].rel_path, "docs/b.md");
}

#[test]
fn markdown_paths_by_name() {
    assert!(tally::plans::is_markdown_exec("/repo/docs/plans/a.md"));
    assert!(tally::plans::is_markdown_exec("/repo/docs/README.MD"));
    assert!(!tally::plans::is_markdown_exec("/repo/docs/a.md.txt"));
    assert!(!tally::plans::is_markdown_exec("/repo/src/main.rs"));
}

#[test]
fn unreadable_plan_paths_file_gives_defaults() {
    assert_eq!(
        load_plan_paths(Some(String::new()), Some("docs/legacy\n".to_string())),
        load_plan_paths(None, None)
    );
}

#[test]
fn dot_root_lists_relative_plans() {
    let files = vec![
        file("./docs/plans/a.md", 2, "# A\n"),
        file("./docs/other/b.md", 1, "# B\n"),
    ];
    let got = plans_from(".", &vec!["docs/plans".to_string()], &files);
    assert_eq!(rel_paths(&got), vec!["docs/plans/a.md"]);
    assert_eq!(got[0].abs_path, "./docs/plans/a.md");
}

#[test]
fn root_with_trailing_slash_lists_plans() {
    let files = vec![
        file("/r/docs/plans/a.md", 2, "# A\n"),
        file("/r/notes/b.md", 1, "# B\n"),
    ];
    let got = plans_from("/r/", &vec!["docs/plans".to_string()], &files);
    assert_eq!(rel_paths(&got), vec!["docs/plans/a.md"]);
}

#[test]
fn dotted_subdir_root_lists_plans() {
    let files = vec![file("./r/docs/plans/a.md", 2, "# A\n")];
    let got = plans_from("./r", &vec!["docs/plans".to_string()], &files);
    assert_eq!(rel_paths(&got), vec!["docs/plans/a.md"]);
}

#[test]
fn walked_paths_under_root() {
    assert!(is_under_root(".", "./a.md"));
    assert!(is_under_root("./r", "./r/docs/a.md"));
    assert!(is_under_root("/r/", "/r/a.md"));
    assert!(is_under_root("/r", "/r/a.md"));
    assert!(!is_under_root("/r", "/rx/a.md"));
    assert!(!is_under_root("/r", "/r//a.md"));
    assert!(!is_under_root("/r/", "/r//a.md"));
    assert!(!is_under_root("", "/a.md"));
}
