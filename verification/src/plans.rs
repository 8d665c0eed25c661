//! The Plans tab: which directories of markdown a user has configured, and
//! the list of plan files surfaced from a walk of the project.
use vstd::prelude::*;
use crate::markdown::{str_lines, str_lines_exec, join_lines};
use crate::order::{keep, lemma_keep_step, lemma_keep_all, views, text_lt, SortKey, stable_sort, before_fn, sort_stable};
use crate::project::{join_path, join_path_exec, base_name, base_name_exec};
use crate::text::{
    to_chars, from_chars, trim, trim_chars, dup, cat, is_blank, lower, to_lower, ends_with,
    ends_with_chars, starts_with, starts_with_chars, trim_start_by, skip_chars, slice_chars,
    join_chars, contains_seq, contains_chars, eq_chars,
};
use crate::tui::hit;

verus! {

/// One markdown file surfaced in the Plans tab.
#[derive(Debug, Clone)]
pub struct Plan {
    /// Path relative to the project root, for display and search.
    pub rel_path: String,
    /// Absolute path, for reading.
    pub abs_path: String,
    /// First heading (or first non-empty line).
    pub heading: String,
    /// Modification time, in nanoseconds since the epoch.
    pub mod_time: u64,
}

pub struct PlanV {
    pub rel_path: Seq<char>,
    pub abs_path: Seq<char>,
    pub heading: Seq<char>,
    pub mod_time: int,
}

impl View for Plan {
    type V = PlanV;

    open spec fn view(&self) -> PlanV {
        PlanV { rel_path: self.rel_path@, abs_path: self.abs_path@, heading: self.heading@, mod_time: self.mod_time as int }
    }
}

impl Plan {
    pub fn copy(&self) -> (r: Plan)
        ensures
            r@ == self@,
    {
        Plan { rel_path: dup(&self.rel_path), abs_path: dup(&self.abs_path), heading: dup(&self.heading), mod_time: self.mod_time }
    }
}

// ------------------------------------------------------------ configuration
/// Browsed when no plan-paths config exists, relative to the project root.
pub open spec fn default_plan_paths() -> Seq<Seq<char>> {
    seq!["docs/superpowers/specs"@, "docs/superpowers/plans"@, "docs/solutions"@]
}

pub fn plan_defaults() -> (r: Vec<String>)
    ensures
        r.deep_view() == default_plan_paths(),
{
    let mut r: Vec<String> = Vec::new();
    r.push(from_chars(&to_chars("docs/superpowers/specs")));
    r.push(from_chars(&to_chars("docs/superpowers/plans")));
    r.push(from_chars(&to_chars("docs/solutions")));
    assert(r.deep_view() =~= default_plan_paths());
    r
}

/// The config directory: the plugin's own when given, else
/// `$XDG_CONFIG_HOME/tally`, else `$HOME/.config/tally`.
pub open spec fn config_dir_of(plugin: Option<Seq<char>>, xdg: Option<Seq<char>>, home: Option<Seq<char>>) -> Option<Seq<char>> {
    match plugin {
        Some(d) => Some(d),
        None => match xdg {
            Some(x) => Some(join_path(x, "tally"@)),
            None => match home {
                Some(h) => Some(join_path(join_path(h, ".config"@), "tally"@)),
                None => None,
            },
        },
    }
}

pub fn config_dir_from(plugin_config_dir: Option<String>, xdg_config_home: Option<String>, home: Option<String>) -> (r: Option<String>)
    ensures
        r.deep_view() == config_dir_of(plugin_config_dir.deep_view(), xdg_config_home.deep_view(), home.deep_view()),
{
    match plugin_config_dir {
        Some(d) => Some(d),
        None => match xdg_config_home {
            Some(x) => Some(join_path_exec(x.as_str(), "tally")),
            None => match home {
                Some(h) => Some(join_path_exec(join_path_exec(h.as_str(), ".config").as_str(), "tally")),
                None => None,
            },
        },
    }
}

/// A configured line: non-blank after trimming and not a `#` comment.
pub open spec fn path_line() -> spec_fn(Seq<char>) -> bool {
    |l: Seq<char>| l.len() > 0 && l[0] != '#'
}

/// The plan directories in a paths file's text (trimmed lines, blanks and
/// `#` comments dropped), or the defaults when none remain.
pub open spec fn paths_in(content: Seq<char>) -> Seq<Seq<char>> {
    let ls = keep(str_lines(content).map_values(|l: Seq<char>| trim(l)), path_line());
    if ls.len() == 0 {
        default_plan_paths()
    } else {
        ls
    }
}

pub fn parse_paths(content: &str) -> (r: Vec<String>)
    ensures
        r.deep_view() == paths_in(content@),
{
    let lines = str_lines_exec(content);
    let ghost tl = lines.deep_view().map_values(|l: Seq<char>| trim(l));
    let ghost p = path_line();
    let mut out: Vec<String> = Vec::new();
    for i in 0..lines.len()
        invariant
            tl == lines.deep_view().map_values(|l: Seq<char>| trim(l)),
            p == path_line(),
            out.deep_view() == keep(tl.take(i as int), p),
    {
        proof {
            lemma_keep_step(tl, i as int, p);
        }
        assert(lines.deep_view()[i as int] == lines@[i as int]@);
        let l = trim_chars(&lines[i]);
        assert(l@ == tl[i as int]);
        if l.len() > 0 && l[0] != '#' {
            let ghost before = out.deep_view();
            let s = from_chars(&l);
            out.push(s);
            assert(out.deep_view() =~= before.push(l@));
        }
    }
    proof {
        lemma_keep_all(tl, p);
    }
    if out.len() == 0 {
        plan_defaults()
    } else {
        out
    }
}

/// The configured plan directories: the `plan-paths` file when it exists,
/// else the legacy `doc-paths` file, else the defaults. Each argument is the
/// file's text when it exists (an unreadable file counts as empty).
pub open spec fn plan_paths_of(plan_paths: Option<Seq<char>>, doc_paths: Option<Seq<char>>) -> Seq<Seq<char>> {
    match plan_paths {
        Some(t) => paths_in(t),
        None => match doc_paths {
            Some(t) => paths_in(t),
            None => default_plan_paths(),
        },
    }
}

pub fn load_plan_paths(plan_paths: Option<String>, doc_paths: Option<String>) -> (r: Vec<String>)
    ensures
        r.deep_view() == plan_paths_of(plan_paths.deep_view(), doc_paths.deep_view()),
{
    match plan_paths {
        Some(t) => parse_paths(t.as_str()),
        None => match doc_paths {
            Some(t) => parse_paths(t.as_str()),
            None => plan_defaults(),
        },
    }
}

/// The editable text shown for the configuration: one directory per line.
pub fn load_plan_paths_text(plan_paths: Option<String>, doc_paths: Option<String>) -> (r: String)
    ensures
        r@ == crate::text::join_with(plan_paths_of(plan_paths.deep_view(), doc_paths.deep_view()), "\n"@) + "\n"@,
{
    let ps = load_plan_paths(plan_paths, doc_paths);
    cat(crate::text::join_strings(&ps, "\n").as_str(), "\n")
}

// ------------------------------------------------------------ headings
/// The first markdown heading (its #'s and surrounding space dropped), else
/// the first non-empty line, else empty; lines are trimmed first.
pub open spec fn heading_from(lines: Seq<Seq<char>>, first: Seq<char>) -> Seq<char>
    decreases lines.len(),
{
    if lines.len() == 0 {
        first
    } else {
        let l = trim(lines[0]);
        if l.len() == 0 {
            heading_from(lines.drop_first(), first)
        } else if l[0] == '#' {
            trim(trim_start_by(l.skip(1), |c: char| c == '#'))
        } else {
            heading_from(lines.drop_first(), if first.len() == 0 { l } else { first })
        }
    }
}

pub open spec fn first_heading_of(content: Seq<char>) -> Seq<char> {
    heading_from(str_lines(content), Seq::empty())
}

fn strip_hashes(l: &Vec<char>) -> (r: Vec<char>)
    requires
        l.len() > 0,
    ensures
        r@ == trim(trim_start_by(l@.skip(1), |c: char| c == '#')),
{
    let t = skip_chars(l, 1);
    let mut a: usize = 0;
    while a < t.len() && t[a] == '#'
        invariant
            0 <= a <= t.len(),
            forall|j: int| 0 <= j < a ==> t@[j] == '#',
        decreases t.len() - a,
    {
        a += 1;
    }
    proof {
        crate::text::lemma_lead_len_is(t@, |c: char| c == '#', a as int);
    }
    trim_chars(&skip_chars(&t, a))
}

pub fn first_heading(content: &str) -> (r: String)
    ensures
        r@ == first_heading_of(content@),
{
    let lines = str_lines_exec(content);
    let ghost ls = lines.deep_view();
    let mut first: Vec<char> = Vec::new();
    let mut i: usize = 0;
    assert(ls.skip(0) =~= ls);
    while i < lines.len()
        invariant
            0 <= i <= lines.len(),
            ls == lines.deep_view(),
            ls == str_lines(content@),
            heading_from(ls, Seq::empty()) == heading_from(ls.skip(i as int), first@),
        decreases lines.len() - i,
    {
        let ghost rest = ls.skip(i as int);
        assert(rest[0] == lines@[i as int]@);
        assert(rest.drop_first() =~= ls.skip(i + 1));
        let l = trim_chars(&lines[i]);
        if l.len() > 0 {
            if l[0] == '#' {
                return from_chars(&strip_hashes(&l));
            }
            if first.len() == 0 {
                first = slice_chars(&l, 0, l.len());
                assert(first@ =~= l@);
            }
        }
        i += 1;
    }
    from_chars(&first)
}

// ------------------------------------------------------------ the list
/// Which files a set of plan-path lines selects, as the `ignore` crate's
/// gitignore matcher decides with the lines' sense inverted.
pub uninterp spec fn selected_by(root: Seq<char>, patterns: Seq<Seq<char>>, path: Seq<char>) -> bool;

/// Where the path relative to `root` starts in a path the walk of `root`
/// produced: just past `root`, and past the separator the walk put after it
/// unless `root` already ends in one.
pub open spec fn rel_start(root: Seq<char>) -> int {
    if root.len() > 0 && root[root.len() - 1] == '/' {
        root.len() as int
    } else {
        root.len() + 1int
    }
}

/// A file the walk of `root` produced: `root`, a separator, then a relative
/// path that does not start with another separator.
pub open spec fn under_root(root: Seq<char>, path: Seq<char>) -> bool {
    &&& root.len() > 0
    &&& path.len() >= rel_start(root)
    &&& path.take(root.len() as int) == root
    &&& rel_start(root) > root.len() ==> path[root.len() as int] == '/'
    &&& !(path.len() > rel_start(root) && path[rel_start(root)] == '/')
}

/// Builds a gitignore matcher rooted at `root` from the lines (a line the
/// builder rejects is skipped; a set that fails to build selects nothing)
/// and reports whether it ignores the path or one of its parents, which
/// here means the path is selected. The matcher panics on a path that does
/// not lie under its root once a leading "./" and the root are stripped, so
/// the call is made only on paths the walk of `root` gives.
#[verifier::external_body]
fn plan_selected(root: &str, patterns: &Vec<String>, path: &str) -> (r: bool)
    requires
        under_root(root@, path@),
    ensures
        r == selected_by(root@, patterns.deep_view(), path@),
{
    let mut gb = ignore::gitignore::GitignoreBuilder::new(root);
    for line in patterns {
        let _ = gb.add_line(None, line);
    }
    match gb.build() {
        Ok(g) => match g.matched_path_or_any_parents(path, false) {
            ignore::Match::Ignore(_) => true,
            _ => false,
        },
        Err(_) => false,
    }
}

pub fn is_under_root(root: &str, path: &str) -> (b: bool)
    ensures
        b == under_root(root@, path@),
{
    let r = to_chars(root);
    let p = to_chars(path);
    if r.len() == 0 {
        return false;
    }
    if p.len() < r.len() || (r[r.len() - 1] != '/' && p.len() == r.len()) {
        return false;
    }
    let start: usize = if r[r.len() - 1] == '/' { r.len() } else { r.len() + 1 };
    let head = slice_chars(&p, 0, r.len());
    if !eq_chars(&head, &r) {
        return false;
    }
    assert(head@ =~= p@.take(r.len() as int));
    if start > r.len() && p[r.len()] != '/' {
        return false;
    }
    !(p.len() > start && p[start] == '/')
}

/// A file found by the walk: its path, modification time (nanoseconds since
/// the epoch) and text (None when unreadable).
pub struct PlanFile {
    pub path: String,
    pub mod_time: u64,
    pub content: Option<String>,
}

pub open spec fn is_markdown(path: Seq<char>) -> bool {
    ends_with(lower(base_name(path)), ".md"@)
}

/// Whether a path names a markdown file (its name ends in ".md", any case).
pub fn is_markdown_exec(path: &str) -> (b: bool)
    ensures
        b == is_markdown(path@),
{
    proof {
        reveal_strlit(".md");
    }
    ends_with_chars(&to_chars(to_lower(base_name_exec(path).as_str()).as_str()), &to_chars(".md"))
}

/// What a selected markdown file is listed as.
pub open spec fn plan_of(root: Seq<char>, path: Seq<char>, mod_time: int, content: Option<Seq<char>>) -> PlanV {
    PlanV {
        rel_path: path.skip(rel_start(root)),
        abs_path: path,
        heading: match content {
            Some(c) => first_heading_of(c),
            None => Seq::empty(),
        },
        mod_time,
    }
}

impl SortKey for Plan {
    /// Most recently modified first.
    open spec fn before(a: PlanV, b: PlanV, mode: u8) -> bool {
        b.mod_time < a.mod_time
    }

    fn before_exec(a: &Plan, b: &Plan, mode: u8) -> (r: bool) {
        b.mod_time < a.mod_time
    }
}

pub open spec fn files_view(fs: Seq<PlanFile>) -> Seq<(Seq<char>, int, Option<Seq<char>>)> {
    fs.map_values(|f: PlanFile| (f.path@, f.mod_time as int, f.content.deep_view()))
}

/// The selected markdown files among the walked ones, in walk order.
pub open spec fn plans_kept(root: Seq<char>, patterns: Seq<Seq<char>>, fs: Seq<(Seq<char>, int, Option<Seq<char>>)>) -> Seq<PlanV>
    decreases fs.len(),
{
    if fs.len() == 0 {
        Seq::empty()
    } else {
        let f = fs.last();
        let prev = plans_kept(root, patterns, fs.drop_last());
        if selected_by(root, patterns, f.0) && is_markdown(f.0) {
            prev.push(plan_of(root, f.0, f.1, f.2))
        } else {
            prev
        }
    }
}

/// The part of a walked path after its root and separator.
fn rel_part(root: &str, path: &str) -> (r: String)
    requires
        under_root(root@, path@),
    ensures
        r@ == path@.skip(rel_start(root@)),
{
    let pv = to_chars(path);
    let rv = to_chars(root);
    let start: usize = if rv[rv.len() - 1] == '/' {
        rv.len()
    } else {
        assert(rv.len() + 1 <= pv.len());
        rv.len() + 1
    };
    from_chars(&skip_chars(&pv, start))
}

/// The plans surfaced from a walk of `root`: files the plan-path lines
/// select (gitignore syntax with its sense inverted) whose names end in
/// ".md" (any case), most recently modified first.
pub fn plans_from(root: &str, patterns: &Vec<String>, files: &Vec<PlanFile>) -> (r: Vec<Plan>)
    requires
        forall|i: int| 0 <= i < files.len() ==> under_root(root@, #[trigger] files@[i].path@),
    ensures
        views(r@) == stable_sort(plans_kept(root@, patterns.deep_view(), files_view(files@)), before_fn::<Plan>(0)),
{
    proof {
        reveal_strlit("/");
    }
    let ghost fv = files_view(files@);
    let mut out: Vec<Plan> = Vec::new();
    for i in 0..files.len()
        invariant
            fv == files_view(files@),
            forall|i: int| 0 <= i < files.len() ==> under_root(root@, #[trigger] files@[i].path@),
            views(out@) == plans_kept(root@, patterns.deep_view(), fv.take(i as int)),
    {
        let f = &files[i];
        proof {
            assert(fv.take(i + 1).drop_last() =~= fv.take(i as int));
            assert(fv.take(i + 1).last() == fv[i as int]);
        }
        proof {
            reveal_strlit("/");
        }
        assert(under_root(root@, f.path@));
        let sel = plan_selected(root, patterns, f.path.as_str());
        let md = ends_with_chars(&to_chars(to_lower(base_name_exec(f.path.as_str()).as_str()).as_str()), &to_chars(".md"));
        if sel && md {
            let rel = rel_part(root, f.path.as_str());
            let heading = match &f.content {
                Some(c) => first_heading(c.as_str()),
                None => String::new(),
            };
            let p = Plan { rel_path: rel, abs_path: dup(&f.path), heading, mod_time: f.mod_time };
            let ghost before = views(out@);
            out.push(p);
            assert(views(out@) =~= before.push(plan_of(root@, fv[i as int].0, fv[i as int].1, fv[i as int].2)));
        }
    }
    assert(fv.take(files.len() as int) =~= fv);
    sort_stable(out, 0)
}

/// A plan shows under the list filter when the query occurs in its relative
/// path or heading (case-insensitively).
pub open spec fn plan_shown(q: Seq<char>) -> spec_fn(PlanV) -> bool {
    |d: PlanV| hit(d.rel_path, q) || hit(d.heading, q)
}

pub fn visible_plans(plans: &Vec<Plan>, filter: &str) -> (r: Vec<Plan>)
    ensures
        filter@.len() == 0 ==> views(r@) == views(plans@),
        filter@.len() > 0 ==> views(r@) == keep(views(plans@), plan_shown(lower(filter@))),
{
    let q = to_chars(to_lower(filter).as_str());
    let empty = is_blank(filter);
    let ghost p = plan_shown(lower(filter@));
    let ghost ps = views(plans@);
    let mut out: Vec<Plan> = Vec::new();
    for i in 0..plans.len()
        invariant
            ps == views(plans@),
            q@ == lower(filter@),
            empty == (filter@.len() == 0),
            p == plan_shown(lower(filter@)),
            empty ==> views(out@) == ps.take(i as int),
            !empty ==> views(out@) == keep(ps.take(i as int), p),
    {
        proof {
            lemma_keep_step(ps, i as int, p);
        }
        let d = &plans[i];
        if empty || contains_chars(&to_chars(to_lower(d.rel_path.as_str()).as_str()), &q)
            || contains_chars(&to_chars(to_lower(d.heading.as_str()).as_str()), &q) {
            let ghost before = views(out@);
            let c = d.copy();
            out.push(c);
            assert(views(out@) =~= before.push(c@));
        }
        assert(empty ==> views(out@) =~= ps.take(i + 1));
    }
    proof {
        lemma_keep_all(ps, p);
    }
    assert(ps.take(plans.len() as int) =~= ps);
    out
}

} // verus!
