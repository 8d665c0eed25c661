//! The per-project comment log: notes and auto-logged events on todos
//! (t_…), scratchpads (s_…) and plan files (keyed by relative path).
use vstd::prelude::*;
use crate::clock::{is_stamp, now};
use crate::errors::{Error, Result};
use crate::ids::is_id;
use crate::order::{views, keep, count_where, lemma_keep_step, lemma_keep_all, lemma_count_le};
use crate::project::{Project, ProjectV};
use crate::text::{dup, from_chars, to_chars, eq_chars, is_text};

verus! {

#[derive(Debug, Clone, Default)]
pub struct Comment {
    pub id: String,
    /// t_… | s_… | plan rel_path.
    pub target: String,
    /// Anchored heading text; empty = item-level.
    pub section: String,
    pub author: String,
    /// RFC 3339, like todos.
    pub created: String,
    /// "note" (human/agent) | "event" (auto-logged).
    pub kind: String,
    pub text: String,
    /// The GitHub comment this one was pushed as or pulled from; 0 = none.
    pub github_comment_id: i64,
}

pub struct CommentV {
    pub id: Seq<char>,
    pub target: Seq<char>,
    pub section: Seq<char>,
    pub author: Seq<char>,
    pub created: Seq<char>,
    pub kind: Seq<char>,
    pub text: Seq<char>,
    pub github_comment_id: int,
}

impl View for Comment {
    type V = CommentV;

    open spec fn view(&self) -> CommentV {
        CommentV {
            id: self.id@,
            target: self.target@,
            section: self.section@,
            author: self.author@,
            created: self.created@,
            kind: self.kind@,
            text: self.text@,
            github_comment_id: self.github_comment_id as int,
        }
    }
}

impl Comment {
    pub fn copy(&self) -> (r: Comment)
        ensures
            r@ == self@,
    {
        Comment {
            id: dup(&self.id),
            target: dup(&self.target),
            section: dup(&self.section),
            author: dup(&self.author),
            created: dup(&self.created),
            kind: dup(&self.kind),
            text: dup(&self.text),
            github_comment_id: self.github_comment_id,
        }
    }
}

/// A target key with one leading "./" dropped, so "./docs/x.md" and
/// "docs/x.md" are the same target.
pub open spec fn norm_target(t: Seq<char>) -> Seq<char> {
    if t.len() >= 2 && t[0] == '.' && t[1] == '/' {
        t.skip(2)
    } else {
        t
    }
}

pub fn norm_target_exec(t: &str) -> (r: String)
    ensures
        r@ == norm_target(t@),
{
    let v = to_chars(t);
    if v.len() >= 2 && v[0] == '.' && v[1] == '/' {
        let mut out: Vec<char> = Vec::new();
        let mut i: usize = 2;
        while i < v.len()
            invariant
                2 <= i <= v.len(),
                out@ == v@.subrange(2, i as int),
            decreases v.len() - i,
        {
            out.push(v[i]);
            assert(out@ =~= v@.subrange(2, i + 1));
            i += 1;
        }
        assert(v@.skip(2) =~= v@.subrange(2, v.len() as int));
        from_chars(&out)
    } else {
        from_chars(&v)
    }
}

pub open spec fn on_target(t: Seq<char>) -> spec_fn(CommentV) -> bool {
    |c: CommentV| c.target == t
}

pub open spec fn off_target(t: Seq<char>) -> spec_fn(CommentV) -> bool {
    |c: CommentV| c.target != t
}

pub open spec fn other_id(id: Seq<char>) -> spec_fn(CommentV) -> bool {
    |c: CommentV| c.id != id
}

pub open spec fn note_on(t: Seq<char>) -> spec_fn(CommentV) -> bool {
    |c: CommentV| c.kind == "note"@ && c.target == t
}

/// A comment freshly made by `actor` on `target` with the given fields.
pub open spec fn made_comment(c: CommentV, actor: Seq<char>, target: Seq<char>, section: Seq<char>, kind: Seq<char>, text: Seq<char>) -> bool {
    &&& is_id("c_"@, c.id)
    &&& c.target == norm_target(target)
    &&& c.section == section
    &&& c.author == actor
    &&& is_stamp(c.created)
    &&& c.kind == kind
    &&& c.text == text
    &&& c.github_comment_id == 0
}

/// `b` is `a` with only its comments changed.
pub open spec fn same_but_comments(a: ProjectV, b: ProjectV) -> bool {
    &&& b.path == a.path
    &&& b.name == a.name
    &&& b.dir == a.dir
    &&& b.actor == a.actor
    &&& b.todos == a.todos
    &&& b.pads == a.pads
}

/// Copies the comments that satisfy `p` (given by the caller's choice of
/// test) into a new list.
fn keep_comments(cs: &Vec<Comment>, target: &Vec<char>, by_target: bool) -> (r: Vec<Comment>)
    ensures
        by_target ==> views(r@) == keep(views(cs@), off_target(target@)),
        !by_target ==> views(r@) == keep(views(cs@), other_id(target@)),
{
    let ghost p = if by_target { off_target(target@) } else { other_id(target@) };
    let mut r: Vec<Comment> = Vec::new();
    for i in 0..cs.len()
        invariant
            p == (if by_target { off_target(target@) } else { other_id(target@) }),
            views(r@) == keep(views(cs@).take(i as int), p),
    {
        proof {
            lemma_keep_step(views(cs@), i as int, p);
        }
        let key = if by_target { to_chars(cs[i].target.as_str()) } else { to_chars(cs[i].id.as_str()) };
        if !eq_chars(&key, target) {
            let ghost before = views(r@);
            let c = cs[i].copy();
            r.push(c);
            assert(views(r@) =~= before.push(c@));
        }
    }
    proof {
        lemma_keep_all(views(cs@), p);
    }
    r
}

/// How many notes `cs` holds on target `t`.
pub open spec fn note_count(cs: Seq<CommentV>, t: Seq<char>) -> nat {
    count_where(cs, note_on(t))
}

impl Project {
    fn add_comment_kind(&mut self, target: &str, section: &str, kind: &str, text: &str) -> (r: Comment)
        ensures
            made_comment(r@, old(self)@.actor, target@, section@, kind@, text@),
            final(self)@.comments == old(self)@.comments.push(r@),
            same_but_comments(old(self)@, final(self)@),
    {
        let id = self.fresh_id("c_");
        let c = Comment {
            id,
            target: norm_target_exec(target),
            section: from_chars(&to_chars(section)),
            author: dup(&self.actor),
            created: now(),
            kind: from_chars(&to_chars(kind)),
            text: from_chars(&to_chars(text)),
            github_comment_id: 0,
        };
        let ghost before = views(self.comments@);
        let cp = c.copy();
        self.comments.push(cp);
        assert(views(self.comments@) =~= before.push(c@));
        c
    }

    /// Adds a human/agent note; section "" is item-level.
    pub fn add_comment(&mut self, target: &str, section: &str, text: &str) -> (r: Result<Comment>)
        ensures
            r matches Ok(c) && made_comment(c@, old(self)@.actor, target@, section@, "note"@, text@)
                && final(self)@.comments == old(self)@.comments.push(c@),
            same_but_comments(old(self)@, final(self)@),
    {
        proof {
            reveal_strlit("note");
        }
        Ok(self.add_comment_kind(target, section, "note", text))
    }

    /// Appends an auto-logged event to a target's timeline.
    pub fn add_comment_event(&mut self, target: &str, text: &str) -> (r: Result<Comment>)
        ensures
            r matches Ok(c) && made_comment(c@, old(self)@.actor, target@, ""@, "event"@, text@)
                && final(self)@.comments == old(self)@.comments.push(c@),
            same_but_comments(old(self)@, final(self)@),
    {
        Ok(self.add_comment_kind(target, "", "event", text))
    }

    /// All comments on a target, oldest first.
    pub fn list_comments(&self, target: &str) -> (r: Result<Vec<Comment>>)
        ensures
            r matches Ok(v) && views(v@) == keep(self@.comments, on_target(norm_target(target@))),
    {
        let t = to_chars(norm_target_exec(target).as_str());
        let ghost p = on_target(t@);
        let mut r: Vec<Comment> = Vec::new();
        for i in 0..self.comments.len()
            invariant
                p == on_target(norm_target(target@)),
                t@ == norm_target(target@),
                views(r@) == keep(views(self.comments@).take(i as int), p),
        {
            proof {
                lemma_keep_step(views(self.comments@), i as int, p);
            }
            if eq_chars(&to_chars(self.comments[i].target.as_str()), &t) {
                let ghost before = views(r@);
                let c = self.comments[i].copy();
                r.push(c);
                assert(views(r@) =~= before.push(c@));
            }
        }
        proof {
            lemma_keep_all(views(self.comments@), p);
        }
        Ok(r)
    }

    /// Removes every comment with the given id; NotFound when there is none.
    pub fn delete_comment(&mut self, comment_id: &str) -> (r: Result<()>)
        ensures
            (exists|i: int| 0 <= i < old(self)@.comments.len() && #[trigger] old(self)@.comments[i].id == comment_id@)
                ==> (r is Ok && final(self)@.comments == keep(old(self)@.comments, other_id(comment_id@))),
            !(exists|i: int| 0 <= i < old(self)@.comments.len() && #[trigger] old(self)@.comments[i].id == comment_id@)
                ==> (r matches Err(Error::NotFound) && final(self)@ == old(self)@),
            same_but_comments(old(self)@, final(self)@),
    {
        let key = to_chars(comment_id);
        let kept = keep_comments(&self.comments, &key, false);
        proof {
            lemma_count_le(views(self.comments@), other_id(comment_id@));
            lemma_keep_len_drop(views(self.comments@), other_id(comment_id@));
        }
        if kept.len() == self.comments.len() {
            return Err(Error::NotFound);
        }
        proof {
            let s = views(self.comments@);
            if forall|i: int| 0 <= i < s.len() ==> #[trigger] s[i].id != comment_id@ {
                assert forall|i: int| 0 <= i < s.len() implies other_id(comment_id@)(#[trigger] s[i]) by {}
                assert(false);
            }
        }
        self.comments = kept;
        Ok(())
    }

    /// Drops every comment on a target (used when the target is deleted).
    pub fn delete_comments_for_target(&mut self, target: &str) -> (r: Result<()>)
        ensures
            r is Ok,
            final(self)@.comments == keep(old(self)@.comments, off_target(norm_target(target@))),
            same_but_comments(old(self)@, final(self)@),
    {
        let t = to_chars(norm_target_exec(target).as_str());
        let kept = keep_comments(&self.comments, &t, true);
        self.comments = kept;
        Ok(())
    }

    /// Each target with notes, paired with its number of notes (events are
    /// not counted). Each target appears once; the order is unspecified.
    pub fn comment_counts(&self) -> (r: Result<Vec<(String, usize)>>)
        ensures
            r matches Ok(v) && counts_exact(v.deep_view(), self@.comments),
    {
        let ghost cs = views(self.comments@);
        let mut out: Vec<(String, usize)> = Vec::new();
        for i in 0..self.comments.len()
            invariant
                cs == views(self.comments@),
                counts_exact(out.deep_view(), cs.take(i as int)),
        {
            let ghost pre = cs.take(i as int);
            let ghost post = cs.take(i + 1);
            proof {
                assert(post.drop_last() =~= pre);
                assert(post.last() == cs[i as int]);
                assert forall|t: Seq<char>| note_count(post, t) == note_count(pre, t) + (if cs[i as int].kind == "note"@ && cs[i as int].target == t { 1nat } else { 0nat }) by {
                    lemma_keep_step(cs, i as int, note_on(t));
                }
                assert forall|t: Seq<char>| #[trigger] note_count(pre, t) <= i by {
                    lemma_count_le(pre, note_on(t));
                }
            }
            let c = &self.comments[i];
            proof {
                reveal_strlit("note");
            }
            if is_text(c.kind.as_str(), "note") {
                let tc = to_chars(c.target.as_str());
                let ghost before = out.deep_view();
                match find_count(&out, &tc) {
                    Some(k) => {
                        let name = dup(&out[k].0);
                        let n = out[k].1;
                        assert(n == note_count(pre, tc@));
                        out.set(k, (name, n + 1));
                        assert(out.deep_view() =~= before.update(k as int, (tc@, (n + 1) as usize)));
                        proof {
                            let v = out.deep_view();
                            assert forall|j: int| 0 <= j < v.len() implies (#[trigger] v[j]).1 == note_count(post, v[j].0) && v[j].1 > 0 by {
                                if j != k {
                                    assert(before[j].0 != before[k as int].0);
                                }
                            }
                            assert forall|j: int, m: int| 0 <= j < m < v.len() implies #[trigger] v[j].0 != #[trigger] v[m].0 by {
                                assert(before[j].0 != before[m].0);
                            }
                            assert forall|t: Seq<char>| #[trigger] note_count(post, t) > 0 implies exists|j: int| 0 <= j < v.len() && #[trigger] v[j].0 == t by {
                                if t == tc@ {
                                    assert(v[k as int].0 == t);
                                } else {
                                    assert(note_count(pre, t) > 0);
                                    let j = choose|j: int| 0 <= j < before.len() && #[trigger] before[j].0 == t;
                                    assert(v[j].0 == t);
                                }
                            }
                        }
                    },
                    None => {
                        let name = from_chars(&tc);
                        out.push((name, 1));
                        assert(out.deep_view() =~= before.push((tc@, 1usize)));
                        proof {
                            let v = out.deep_view();
                            if note_count(pre, tc@) > 0 {
                                let j = choose|j: int| 0 <= j < before.len() && #[trigger] before[j].0 == tc@;
                                assert(false);
                            }
                            assert forall|j: int| 0 <= j < v.len() implies (#[trigger] v[j]).1 == note_count(post, v[j].0) && v[j].1 > 0 by {
                                if j < before.len() {
                                    assert(before[j].0 != tc@);
                                }
                            }
                            assert forall|j: int, m: int| 0 <= j < m < v.len() implies #[trigger] v[j].0 != #[trigger] v[m].0 by {
                                if m < before.len() {
                                    assert(before[j].0 != before[m].0);
                                } else {
                                    assert(before[j].0 != tc@);
                                }
                            }
                            assert forall|t: Seq<char>| #[trigger] note_count(post, t) > 0 implies exists|j: int| 0 <= j < v.len() && #[trigger] v[j].0 == t by {
                                if t == tc@ {
                                    assert(v[before.len() as int].0 == t);
                                } else {
                                    assert(note_count(pre, t) > 0);
                                    let j = choose|j: int| 0 <= j < before.len() && #[trigger] before[j].0 == t;
                                    assert(v[j].0 == t);
                                }
                            }
                        }
                    },
                }
            } else {
                proof {
                    let v = out.deep_view();
                    assert forall|j: int| 0 <= j < v.len() implies (#[trigger] v[j]).1 == note_count(post, v[j].0) && v[j].1 > 0 by {
                        assert(note_count(post, v[j].0) == note_count(pre, v[j].0));
                    }
                    assert forall|t: Seq<char>| #[trigger] note_count(post, t) > 0 implies exists|j: int| 0 <= j < v.len() && #[trigger] v[j].0 == t by {
                        assert(note_count(pre, t) > 0);
                    }
                }
            }
            assert(counts_exact(out.deep_view(), post));
        }
        proof {
            assert(cs.take(self.comments.len() as int) =~= cs);
        }
        Ok(out)
    }
}

/// The position of the entry for target `t`, if there is one.
fn find_count(v: &Vec<(String, usize)>, t: &Vec<char>) -> (r: Option<usize>)
    ensures
        r matches Some(k) ==> k < v.len() && v.deep_view()[k as int].0 == t@,
        r is None ==> forall|j: int| 0 <= j < v.len() ==> #[trigger] v.deep_view()[j].0 != t@,
{
    for k in 0..v.len()
        invariant
            forall|j: int| 0 <= j < k ==> #[trigger] v.deep_view()[j].0 != t@,
    {
        if eq_chars(&to_chars(v[k].0.as_str()), t) {
            return Some(k);
        }
    }
    None
}

/// `keep` drops something exactly when some element fails `p`.
pub proof fn lemma_keep_len_drop<V>(s: Seq<V>, p: spec_fn(V) -> bool)
    ensures
        keep(s, p).len() == s.len() <==> (forall|i: int| 0 <= i < s.len() ==> p(#[trigger] s[i])),
        keep(s, p).len() == s.len() ==> keep(s, p) == s,
    decreases s.len(),
{
    lemma_count_le(s, p);
    if s.len() > 0 {
        let d = s.drop_last();
        lemma_keep_len_drop(d, p);
        lemma_count_le(d, p);
        if forall|i: int| 0 <= i < s.len() ==> p(#[trigger] s[i]) {
            assert forall|i: int| 0 <= i < d.len() implies p(#[trigger] d[i]) by {
                assert(d[i] == s[i]);
            }
            assert(s[s.len() - 1] == s.last());
            assert(d.push(s.last()) =~= s);
        }
        if keep(s, p).len() == s.len() {
            if !p(s.last()) {
                assert(false);
            }
            assert forall|i: int| 0 <= i < s.len() implies p(#[trigger] s[i]) by {
                if i < s.len() - 1 {
                    assert(d[i] == s[i]);
                }
            }
        }
    }
}

/// `v` lists each target that has notes in `cs` exactly once, with its note
/// count.
pub open spec fn counts_exact(v: Seq<(Seq<char>, usize)>, cs: Seq<CommentV>) -> bool {
    &&& forall|j: int, k: int| 0 <= j < k < v.len() ==> #[trigger] v[j].0 != #[trigger] v[k].0
    &&& forall|j: int| 0 <= j < v.len() ==> (#[trigger] v[j]).1 == note_count(cs, v[j].0) && v[j].1 > 0
    &&& forall|t: Seq<char>| #[trigger] note_count(cs, t) > 0 ==> exists|j: int| 0 <= j < v.len() && #[trigger] v[j].0 == t
}

} // verus!
