//! A project's store held in memory: its todos, comments and scratchpads,
//! plus who is acting on it. Reading and writing the files behind it is left
//! to the caller; every operation here is a function of the store's value,
//! the clock and the arguments.
use vstd::prelude::*;
use crate::clock::{now_unix_nanos, is_stamp, now};
use crate::comments::{Comment, CommentV};
use crate::ids::{is_id, id_text, new_id};
use crate::order::views;
use crate::scratchpads::{Scratchpad, PadV};
use crate::text::{to_chars, from_chars, concat_chars, cat, dup, eq_chars, is_blank, slice_chars, split_on, split_chars, lemma_split_nonempty, trim_end_by, lemma_trail_len_is};
use crate::errors::{Error, Result};
use crate::todos::{Todo, TodoV};

verus! {

pub struct Project {
    /// The project's root directory (the main working tree of its repository).
    pub path: String,
    /// The last component of `path`.
    pub name: String,
    /// The directory holding this project's store.
    pub dir: String,
    /// Who is making changes, stamped into created_by/updated_by and onto
    /// comments.
    pub actor: String,
    /// Every todo, in file order.
    pub todos: Vec<Todo>,
    /// Every comment on every target, oldest first.
    pub comments: Vec<Comment>,
    /// Every scratchpad.
    pub pads: Vec<Scratchpad>,
    /// Counter mixed into new ids. It is not stored content, so the view
    /// leaves it out; `fresh_id` states what it does with it.
    pub id_seq: u64,
}

pub struct ProjectV {
    pub path: Seq<char>,
    pub name: Seq<char>,
    pub dir: Seq<char>,
    pub actor: Seq<char>,
    pub todos: Seq<TodoV>,
    pub comments: Seq<CommentV>,
    pub pads: Seq<PadV>,
}

impl View for Project {
    type V = ProjectV;

    open spec fn view(&self) -> ProjectV {
        ProjectV {
            path: self.path@,
            name: self.name@,
            dir: self.dir@,
            actor: self.actor@,
            todos: views(self.todos@),
            comments: views(self.comments@),
            pads: views(self.pads@),
        }
    }
}

/// Path joining as `PathBuf::join` does it on Unix for a relative `b`: one
/// separator between the parts.
pub open spec fn join_path(a: Seq<char>, b: Seq<char>) -> Seq<char> {
    if b.len() > 0 && b[0] == '/' {
        b
    } else if a.len() == 0 {
        b
    } else if a[a.len() - 1] == '/' {
        a + b
    } else {
        a + seq!['/'] + b
    }
}

pub fn join_path_exec(a: &str, b: &str) -> (r: String)
    ensures
        r@ == join_path(a@, b@),
{
    let av = to_chars(a);
    let bv = to_chars(b);
    if bv.len() > 0 && bv[0] == '/' {
        return from_chars(&bv);
    }
    if av.len() == 0 {
        return from_chars(&bv);
    }
    if av[av.len() - 1] == '/' {
        return from_chars(&concat_chars(&av, &bv));
    }
    let mut sep: Vec<char> = Vec::new();
    sep.push('/');
    let r = from_chars(&concat_chars(&concat_chars(&av, &sep), &bv));
    assert(sep@ =~= seq!['/']);
    r
}

impl Project {
    /// An empty store for the project at `path`, named `name`, kept in `dir`.
    pub fn new(path: String, name: String, dir: String, actor: String) -> (p: Project)
        ensures
            p@.path == path@,
            p@.name == name@,
            p@.dir == dir@,
            p@.actor == actor@,
            p@.todos.len() == 0,
            p@.comments.len() == 0,
            p@.pads.len() == 0,
    {
        let p = Project {
            path,
            name,
            dir,
            actor,
            todos: Vec::new(),
            comments: Vec::new(),
            pads: Vec::new(),
            id_seq: 0,
        };
        assert(views(p.todos@) =~= Seq::<TodoV>::empty());
        assert(views(p.comments@) =~= Seq::<CommentV>::empty());
        assert(views(p.pads@) =~= Seq::<PadV>::empty());
        p
    }

    /// A fresh id with the given prefix: the clock's nanoseconds and the
    /// store's counter, advanced by one before use and taken modulo 1296
    /// (the first id ends in "1"), both in base 36.
    pub fn fresh_id(&mut self, prefix: &str) -> (r: String)
        ensures
            is_id(prefix@, r@),
            exists|nanos: nat| nanos <= u64::MAX && r@ == #[trigger] id_text(prefix@, nanos, (old(self).id_seq % 1296 + 1) as nat),
            final(self).id_seq == old(self).id_seq % 1296 + 1,
            final(self)@ == old(self)@,
    {
        let ghost k = self.id_seq;
        let n = self.id_seq % 1296 + 1;
        self.id_seq = n;
        let nanos = now_unix_nanos();
        let r = new_id(prefix, nanos, n);
        assert(r@ == id_text(prefix@, nanos as nat, (k % 1296 + 1) as nat));
        r
    }

    /// The legacy whole-file JSON path of the todos.
    pub fn todos_path(&self) -> (r: String)
        ensures
            r@ == join_path(self.dir@, "todos.json"@),
    {
        join_path_exec(self.dir.as_str(), "todos.json")
    }

    /// The whole-file JSON path of the comments.
    pub fn comments_path(&self) -> (r: String)
        ensures
            r@ == join_path(self.dir@, "comments.json"@),
    {
        join_path_exec(self.dir.as_str(), "comments.json")
    }

    /// The directory of scratchpad markdown files.
    pub fn scratch_dir(&self) -> (r: String)
        ensures
            r@ == join_path(self.dir@, "scratchpads"@),
    {
        join_path_exec(self.dir.as_str(), "scratchpads")
    }

    /// Per-project TUI preferences.
    pub fn ui_state_path(&self) -> (r: String)
        ensures
            r@ == join_path(self.dir@, "ui.json"@),
    {
        join_path_exec(self.dir.as_str(), "ui.json")
    }
}

/// The last component of a path (trailing slashes ignored); empty for "..".
pub open spec fn base_name(path: Seq<char>) -> Seq<char> {
    let parts = split_on(trim_end_by(path, |c: char| c == '/'), '/');
    let last = parts[parts.len() - 1];
    if last == ".."@ {
        Seq::empty()
    } else {
        last
    }
}

pub fn base_name_exec(path: &str) -> (r: String)
    ensures
        r@ == base_name(path@),
{
    proof {
        reveal_strlit("..");
    }
    let v = to_chars(path);
    let mut b: usize = v.len();
    while b > 0 && v[b - 1] == '/'
        invariant
            b <= v.len(),
            forall|j: int| b <= j < v.len() ==> v@[j] == '/',
        decreases b,
    {
        b -= 1;
    }
    proof {
        lemma_trail_len_is(v@, |c: char| c == '/', (v.len() - b) as int);
        assert(v@.take(b as int) =~= v@.subrange(0, b as int));
    }
    let t = slice_chars(&v, 0, b);
    let parts = split_chars(&t, '/');
    proof {
        lemma_split_nonempty(t@, '/');
    }
    let last = &parts[parts.len() - 1];
    assert(parts.deep_view()[parts.len() - 1] == last@);
    if eq_chars(last, &to_chars("..")) {
        String::new()
    } else {
        from_chars(last)
    }
}


/// What `sha1_smol` gives as the hex digest of some text's UTF-8 bytes.
pub uninterp spec fn sha1_hex(s: Seq<char>) -> Seq<char>;

pub open spec fn is_lower_hex(c: char) -> bool {
    ('0' <= c && c <= '9') || ('a' <= c && c <= 'f')
}

/// `sha1_smol::Sha1::from(s.as_bytes()).digest().to_string()`: the digest's
/// five 32-bit words, each written as eight lower-case hex digits.
#[verifier::external_body]
fn sha1_text(s: &str) -> (r: String)
    ensures
        r@ == sha1_hex(s@),
        r@.len() == 40,
        forall|i: int| 0 <= i < 40 ==> is_lower_hex(#[trigger] r@[i]),
{
    sha1_smol::Sha1::from(s.as_bytes()).digest().to_string()
}

/// The store key for a project path: `<base>-<first 8 hex of sha1(path)>`.
pub open spec fn key_of(abs: Seq<char>) -> Seq<char> {
    base_name(abs) + "-"@ + sha1_hex(abs).take(8)
}

pub fn project_key(abs: &str) -> (r: String)
    ensures
        r@ == key_of(abs@),
{
    let name = base_name_exec(abs);
    let hex = to_chars(sha1_text(abs).as_str());
    let short = slice_chars(&hex, 0, 8);
    assert(short@ =~= sha1_hex(abs@).take(8));
    cat(cat(name.as_str(), "-").as_str(), from_chars(&short).as_str())
}

/// Where a project's store lives under the store root.
pub open spec fn store_dir_of(root: Seq<char>, abs: Seq<char>) -> Seq<char> {
    join_path(join_path(root, "projects"@), key_of(abs))
}

pub fn store_dir_for(store_root: &str, abs: &str) -> (r: String)
    ensures
        r@ == store_dir_of(store_root@, abs@),
{
    join_path_exec(join_path_exec(store_root, "projects").as_str(), project_key(abs).as_str())
}

/// The attribution identity: the configured owner when set, else "agent".
pub open spec fn actor_of(owner: Option<Seq<char>>) -> Seq<char> {
    match owner {
        Some(a) => if a.len() > 0 { a } else { "agent"@ },
        None => "agent"@,
    }
}

pub fn default_actor(owner: Option<String>) -> (r: String)
    ensures
        r@ == actor_of(owner.deep_view()),
{
    match owner {
        Some(a) => {
            if !is_blank(a.as_str()) {
                a
            } else {
                from_chars(&to_chars("agent"))
            }
        },
        None => from_chars(&to_chars("agent")),
    }
}

/// The store root: `$XDG_STATE_HOME/tally` when set, else
/// `$HOME/.local/state/tally` (an unset HOME counts as empty).
pub open spec fn store_root_of(xdg: Option<Seq<char>>, home: Option<Seq<char>>) -> Seq<char> {
    match xdg {
        Some(x) if x.len() > 0 => join_path(x, "tally"@),
        _ => join_path(
            match home {
                Some(h) => h,
                None => Seq::empty(),
            },
            ".local/state/tally"@,
        ),
    }
}

pub fn store_root_from(xdg: Option<String>, home: Option<String>) -> (r: String)
    ensures
        r@ == store_root_of(xdg.deep_view(), home.deep_view()),
{
    match &xdg {
        Some(x) => {
            if !is_blank(x.as_str()) {
                return join_path_exec(x.as_str(), "tally");
            }
        },
        None => {},
    }
    let h = match home {
        Some(h) => h,
        None => String::new(),
    };
    join_path_exec(h.as_str(), ".local/state/tally")
}

pub open spec fn missing_dir_text(dir: Seq<char>) -> Seq<char> {
    "project path "@ + dir + " is not an existing directory"@
}

/// The project for a resolved root path `abs`, kept under `store_root`.
/// An explicitly given directory that does not exist is refused unless its
/// store already exists (a deleted worktree stays reachable).
pub fn resolve_project(
    store_root: &str,
    abs: &str,
    actor: &str,
    override_dir: Option<&str>,
    dir_is_dir: bool,
    store_is_dir: bool,
) -> (r: Result<Project>)
    ensures
        (override_dir is Some && !dir_is_dir && !store_is_dir) ==> (r matches Err(Error::Other(m))
            && m@ == missing_dir_text(override_dir->0@)),
        !(override_dir is Some && !dir_is_dir && !store_is_dir) ==> (r matches Ok(p) && p@.path == abs@
            && p@.name == base_name(abs@) && p@.dir == store_dir_of(store_root@, abs@) && p@.actor == actor@
            && p@.todos.len() == 0 && p@.comments.len() == 0 && p@.pads.len() == 0),
{
    match override_dir {
        Some(d) => {
            if !dir_is_dir && !store_is_dir {
                return Err(Error::Other(cat(cat("project path ", d).as_str(), " is not an existing directory")));
            }
        },
        None => {},
    }
    Ok(Project::new(
        from_chars(&to_chars(abs)),
        base_name_exec(abs),
        store_dir_for(store_root, abs),
        from_chars(&to_chars(actor)),
    ))
}

} // verus!
