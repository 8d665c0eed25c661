//! Properties of the store that span operations, proved over the specs the
//! operations' contracts use.
use vstd::prelude::*;
use crate::comments::{CommentV, made_comment, on_target, other_id, norm_target};
use crate::order::{keep, lemma_keep_members, ins_sorted, stable_sort};
use crate::scratchpads::{PadV, PadRefusal, pad_outcome, has_pad, first_pad, pad_at, lemma_first_pad};
use crate::sync::{ActionV, GhCommentV, planned, state_actions, to_import, to_push, known_gh_id};
use crate::todos::{
    TodoV, UpdateV, has_todo, first_todo, todo_at, lemma_first_todo, after_delete, other_todo,
    other_text, unblocked, with_unique, edit_outcome, update_check, updated_with, Refusal, listed,
    passes, passes_fn, sorted_todos, paged, committed, transition_text, FilterV, sort_mode, prio_rank, opt_text,
    is_blocked_by, last_status,
};
use crate::order::{before_fn, text_lt};
use crate::scratchpads::{
    Scratchpad, pads_listed, pad_file, without_body, pad_listed_fn, found_in, hits_upto, line_hit, lines_of,
};
use crate::text::{contains_seq, lower};
use crate::cli::todo_row;
use crate::tui::next_prio;
use crate::project::ProjectV;
use crate::errors::Error;
use crate::todos::Todo;
use crate::text::{
    lacks, join_with, split_on, spaced, trim, is_ws, lemma_split_join, lemma_join_comma_space,
    lemma_join_newline_next, lemma_find_first, lemma_lead_len_is, lemma_trail_len_is, find_seq, occurs_at,
    starts_with,
};
use crate::scratchpads::{tag_list, is_bracket, nonempty, apply_line, apply_lines, pad_of_text, rendered, blank_pad, attr_line};
use crate::num::{int_text, parse_int, lemma_parse_int_text, lemma_dec_digits_ok, dec_digits, all_digits, dec_padded, is_digit};
use crate::clock::{is_stamp, rfc3339_text, civil_of};
use crate::ids::{is_id, id_text, b36_digits, b36_char};
use crate::scratchpads::fresh_pad;

use crate::panes::{App, reloaded, pin_target, row_ids, sel, cur, pinned, first_pos, lemma_first_pos, lemma_first_pos_found, lemma_rows_fit};
use crate::nav::clamped;
use crate::tui::tab_index;

verus! {

// ------------------------------------------------------------ sequences
proof fn lemma_ins_members<V>(s: Seq<V>, x: V, lt: spec_fn(V, V) -> bool, y: V)
    requires
        ins_sorted(s, x, lt).contains(y),
    ensures
        s.contains(y) || y == x,
    decreases s.len(),
{
    let r = ins_sorted(s, x, lt);
    let k = choose|k: int| 0 <= k < r.len() && r[k] == y;
    if s.len() == 0 {
    } else if lt(x, s[0]) {
        if k > 0 {
            assert(s[k - 1] == y);
        }
    } else {
        if k == 0 {
            assert(s[0] == y);
        } else {
            let t = s.drop_first();
            assert(ins_sorted(t, x, lt)[k - 1] == y);
            lemma_ins_members(t, x, lt, y);
            if t.contains(y) {
                let j = choose|j: int| 0 <= j < t.len() && t[j] == y;
                assert(s[j + 1] == y);
            }
        }
    }
}

/// Sorting keeps only elements that were there.
pub proof fn lemma_sort_members<V>(s: Seq<V>, lt: spec_fn(V, V) -> bool, y: V)
    requires
        stable_sort(s, lt).contains(y),
    ensures
        s.contains(y),
    decreases s.len(),
{
    if s.len() > 0 {
        let d = s.drop_last();
        lemma_ins_members(stable_sort(d, lt), s.last(), lt, y);
        if stable_sort(d, lt).contains(y) {
            lemma_sort_members(d, lt, y);
            let j = choose|j: int| 0 <= j < d.len() && d[j] == y;
            assert(s[j] == y);
        } else {
            assert(s[s.len() - 1] == y);
        }
    }
}

/// No element sorts strictly before the one just ahead of it.
pub open spec fn in_order<V>(s: Seq<V>, lt: spec_fn(V, V) -> bool) -> bool {
    forall|i: int, j: int| 0 <= i && j == i + 1 && j < s.len() ==> !lt(#[trigger] s[j], #[trigger] s[i])
}

/// The comparison never holds both ways.
pub open spec fn asymmetric<V>(lt: spec_fn(V, V) -> bool) -> bool {
    forall|a: V, b: V| #[trigger] lt(a, b) ==> !lt(b, a)
}

proof fn lemma_ins_in_order<V>(s: Seq<V>, x: V, lt: spec_fn(V, V) -> bool)
    requires
        in_order(s, lt),
        asymmetric(lt),
    ensures
        in_order(ins_sorted(s, x, lt), lt),
        ins_sorted(s, x, lt).len() == s.len() + 1,
        ins_sorted(s, x, lt)[0] == (if s.len() == 0 || lt(x, s[0]) { x } else { s[0] }),
    decreases s.len(),
{
    let r = ins_sorted(s, x, lt);
    if s.len() == 0 {
    } else if lt(x, s[0]) {
        assert(r == seq![x] + s);
        assert forall|i: int, j: int| 0 <= i && j == i + 1 && j < r.len() implies !lt(#[trigger] r[j], #[trigger] r[i]) by {
            if i == 0 {
                assert(r[j] == s[0]);
            } else {
                assert(r[i] == s[i - 1] && r[j] == s[j - 1]);
            }
        }
    } else {
        let t = s.drop_first();
        assert forall|i: int, j: int| 0 <= i && j == i + 1 && j < t.len() implies !lt(#[trigger] t[j], #[trigger] t[i]) by {
            assert(t[i] == s[i + 1] && t[j] == s[j + 1]);
        }
        lemma_ins_in_order(t, x, lt);
        let q = ins_sorted(t, x, lt);
        assert(r == seq![s[0]] + q);
        assert forall|i: int, j: int| 0 <= i && j == i + 1 && j < r.len() implies !lt(#[trigger] r[j], #[trigger] r[i]) by {
            if i == 0 {
                assert(r[j] == q[0]);
                if t.len() > 0 && !lt(x, t[0]) {
                    assert(t[0] == s[1]);
                }
            } else {
                assert(r[i] == q[i - 1] && r[j] == q[j - 1]);
            }
        }
    }
}

/// A stable sort by a comparison that never holds both ways leaves no
/// element strictly before the one ahead of it.
pub proof fn law_sort_in_order<V>(s: Seq<V>, lt: spec_fn(V, V) -> bool)
    requires
        asymmetric(lt),
    ensures
        in_order(stable_sort(s, lt), lt),
    decreases s.len(),
{
    if s.len() > 0 {
        law_sort_in_order(s.drop_last(), lt);
        lemma_ins_in_order(stable_sort(s.drop_last(), lt), s.last(), lt);
    }
}

/// Paging keeps only elements that were there.
pub proof fn lemma_paged_members<V>(s: Seq<V>, offset: int, limit: int, y: V)
    requires
        paged(s, offset, limit).contains(y),
    ensures
        s.contains(y),
{
    let off = if offset < 0 { 0 } else if offset > s.len() { s.len() as int } else { offset };
    let rest = s.skip(off);
    let p = paged(s, offset, limit);
    let k = choose|k: int| 0 <= k < p.len() && p[k] == y;
    assert(rest[k] == y);
    assert(s[off + k] == y);
}

// ------------------------------------------------------------ todos
/// A todo created with an id no other todo has is what reading that id
/// gives back.
pub proof fn law_get_after_create(old: Seq<TodoV>, t: TodoV)
    requires
        !has_todo(old, t.id),
    ensures
        has_todo(old.push(t), t.id),
        old.push(t)[first_todo(old.push(t), t.id)] == t,
{
    let s = old.push(t);
    assert forall|j: int| 0 <= j < old.len() implies #[trigger] s[j].id != t.id by {
        assert(s[j] == old[j]);
        if s[j].id == t.id {
            assert(old[j].id == t.id);
        }
    }
    assert(todo_at(s, t.id, old.len() as int));
    lemma_first_todo(s, t.id, old.len() as int);
}

/// After deleting a todo, no todo has its id and none is blocked on it.
pub proof fn law_delete_cascades(ts: Seq<TodoV>, id: Seq<char>)
    ensures
        !has_todo(after_delete(ts, id), id),
        forall|i: int| 0 <= i < after_delete(ts, id).len() ==> !(#[trigger] after_delete(ts, id)[i]).blockers.contains(id),
{
    let kept = keep(ts, other_todo(id));
    lemma_keep_members(ts, other_todo(id));
    let r = after_delete(ts, id);
    assert forall|i: int| 0 <= i < r.len() implies (#[trigger] r[i]).id != id && !r[i].blockers.contains(id) by {
        assert(r[i] == unblocked(kept[i], id));
        assert(other_todo(id)(kept[i]));
        let bs = kept[i].blockers;
        lemma_keep_members(bs, other_text(id));
        if keep(bs, other_text(id)).contains(id) {
            let k = choose|k: int| 0 <= k < keep(bs, other_text(id)).len() && keep(bs, other_text(id))[k] == id;
            assert(other_text(id)(keep(bs, other_text(id))[k]));
        }
    }
}

/// Adding a tag (or blocker) that is already there changes nothing, so
/// adding twice is adding once.
pub proof fn law_add_unique_idempotent(v: Seq<Seq<char>>, x: Seq<char>)
    ensures
        with_unique(with_unique(v, x), x) == with_unique(v, x),
        with_unique(v, x).contains(x),
{
    if !v.contains(x) {
        assert(v.push(x)[v.len() as int] == x);
    }
}

/// An update guarded by a stale `updated` stamp is refused with
/// ConcurrentEdit and changes nothing.
pub proof fn law_stale_update_refused(old: ProjectV, new: ProjectV, id: Seq<char>, r: crate::errors::Result<Todo>, u: UpdateV)
    requires
        edit_outcome(old, new, id, r, update_check(u), updated_with(u)),
        has_todo(old.todos, id),
        u.expected_updated matches Some(e) && old.todos[first_todo(old.todos, id)].updated != e,
    ensures
        r matches Err(Error::ConcurrentEdit),
        new == old,
{
}

/// A status change is logged as one event on the todo, naming the
/// transition; an edit that keeps the status logs nothing.
pub proof fn law_status_change_logged(old: ProjectV, new: ProjectV, id: Seq<char>, i: int, t: TodoV)
    requires
        committed(old, new, id, i, t),
        0 <= i < old.todos.len(),
    ensures
        t.status != old.todos[i].status ==> new.comments.len() == old.comments.len() + 1
            && new.comments.last().kind == "event"@
            && new.comments.last().text == transition_text(old.todos[i].status, t.status),
        t.status == old.todos[i].status ==> new.comments == old.comments,
        t.status == "completed"@ && old.todos[i].status != "completed"@ ==> new.comments.last().text == "marked done"@,
{
}

/// Every todo a listing returns passes the listing's filter and is one of
/// the store's todos.
pub proof fn law_listed_pass_filter(all: Seq<TodoV>, f: crate::todos::FilterV, t: TodoV)
    requires
        listed(all, f).contains(t),
    ensures
        passes(t, all, f),
        all.contains(t),
{
    let k = keep(all, passes_fn(all, f));
    let s = sorted_todos(k, f.sort);
    lemma_paged_members(s, f.offset, f.limit, t);
    lemma_sort_members(k, crate::order::before_fn::<Todo>(crate::todos::sort_mode(f.sort)), t);
    lemma_keep_members(all, passes_fn(all, f));
    let j = choose|j: int| 0 <= j < k.len() && k[j] == t;
    assert(passes_fn(all, f)(k[j]));
}

// ------------------------------------------------------------ comments
/// A note added to a target is listed for that target, after the ones
/// already there.
pub proof fn law_added_comment_listed(old: Seq<CommentV>, c: CommentV, actor: Seq<char>, target: Seq<char>, section: Seq<char>, text: Seq<char>)
    requires
        made_comment(c, actor, target, section, "note"@, text),
    ensures
        keep(old.push(c), on_target(norm_target(target))) == keep(old, on_target(norm_target(target))).push(c),
{
    assert(old.push(c).drop_last() =~= old);
}

/// Once deleted, no comment with that id is left.
pub proof fn law_deleted_comment_gone(cs: Seq<CommentV>, id: Seq<char>)
    ensures
        forall|i: int| 0 <= i < keep(cs, other_id(id)).len() ==> (#[trigger] keep(cs, other_id(id))[i]).id != id,
{
    lemma_keep_members(cs, other_id(id));
    assert forall|i: int| 0 <= i < keep(cs, other_id(id)).len() implies (#[trigger] keep(cs, other_id(id))[i]).id != id by {
        assert(other_id(id)(keep(cs, other_id(id))[i]));
    }
}

// ------------------------------------------------------------ scratchpads
/// A pad edit guarded by a stale revision is refused and changes nothing;
/// an edit that goes through bumps the revision by exactly one.
pub proof fn law_revision_guard(
    old: ProjectV,
    new: ProjectV,
    id: Seq<char>,
    exp_rev: int,
    r: crate::errors::Result<crate::scratchpads::Scratchpad>,
    check: spec_fn(PadV) -> PadRefusal,
    ok: spec_fn(PadV, PadV) -> bool,
)
    requires
        pad_outcome(old, new, id, exp_rev, r, check, ok),
        has_pad(old.pads, id),
    ensures
        exp_rev >= 0 && old.pads[first_pad(old.pads, id)].revision != exp_rev ==> (r matches Err(Error::RevisionMismatch) && new == old),
        r is Ok ==> (r matches Ok(s) && s@.revision == old.pads[first_pad(old.pads, id)].revision + 1),
{
}

// ------------------------------------------------------------ sync
/// A sync pass never imports a GitHub comment already held locally, never
/// pushes an event or a comment that came from GitHub, and never pushes the
/// same comment twice.
pub proof fn law_sync_no_echo(t: TodoV, link: crate::todos::LinkV, cs: Seq<CommentV>, snap: crate::sync::SnapshotV)
    ensures
        forall|i: int| 0 <= i < planned(t, link, cs, snap).len() ==> match #[trigger] planned(t, link, cs, snap)[i] {
            ActionV::ImportComment(g) => !known_gh_id(cs, g.id),
            ActionV::PushComment(cid) => exists|j: int| 0 <= j < cs.len() && cs[j].id == cid && #[trigger] to_push()(cs[j]),
            _ => true,
        },
{
    let s0 = state_actions(t, link, snap);
    let gi = keep(snap.comments, to_import(link, cs));
    let cp = keep(cs, to_push());
    let a1 = gi.map_values(|g: GhCommentV| ActionV::ImportComment(g));
    let a2 = cp.map_values(|c: CommentV| ActionV::PushComment(c.id));
    lemma_keep_members(snap.comments, to_import(link, cs));
    lemma_keep_members(cs, to_push());
    let all = planned(t, link, cs, snap);
    assert(all == s0 + a1 + a2);
    assert forall|i: int| 0 <= i < all.len() implies match #[trigger] all[i] {
        ActionV::ImportComment(g) => !known_gh_id(cs, g.id),
        ActionV::PushComment(cid) => exists|j: int| 0 <= j < cs.len() && cs[j].id == cid && #[trigger] to_push()(cs[j]),
        _ => true,
    } by {
        if i < s0.len() {
            assert(all[i] == s0[i]);
        } else if i < s0.len() + a1.len() {
            let k = i - s0.len();
            assert(all[i] == a1[k]);
            assert(to_import(link, cs)(gi[k]));
        } else {
            let k = i - s0.len() - a1.len();
            assert(all[i] == a2[k]);
            assert(to_push()(cp[k]));
            let j = choose|j: int| 0 <= j < cs.len() && cs[j] == cp[k];
            assert(cs[j].id == cp[k].id);
        }
    }
}

// ------------------------------------------------------------ the TUI
/// Cycling priority three times comes back to where it started, for every
/// recognized priority; anything else goes to medium.
pub proof fn law_priority_cycle(p: Seq<char>)
    ensures
        (p == "low"@ || p == "medium"@ || p == "high"@) ==> next_prio(next_prio(next_prio(p))) == p,
        !(p == "low"@ || p == "medium"@ || p == "high"@) ==> next_prio(p) == "medium"@,
        next_prio(p) == "low"@ || next_prio(p) == "medium"@ || next_prio(p) == "high"@,
{
    reveal_strlit("low");
    reveal_strlit("medium");
    reveal_strlit("high");
}



// ------------------------------------------------------------ the pad file format
/// A tag that the pad header's `tags: [..]` list carries unchanged: not
/// empty, no surrounding space, and none of the characters the list syntax
/// uses.
pub open spec fn plain_tag(t: Seq<char>) -> bool {
    &&& t.len() > 0
    &&& !is_ws(t[0])
    &&& !is_ws(t[t.len() - 1])
    &&& lacks(t, ',')
    &&& lacks(t, '\n')
    &&& lacks(t, '[')
    &&& lacks(t, ']')
}

proof fn lemma_keep_every<V>(s: Seq<V>, p: spec_fn(V) -> bool)
    requires
        forall|i: int| 0 <= i < s.len() ==> #[trigger] p(s[i]),
    ensures
        keep(s, p) == s,
    decreases s.len(),
{
    if s.len() > 0 {
        let d = s.drop_last();
        assert forall|i: int| 0 <= i < d.len() implies #[trigger] p(d[i]) by {
            assert(d[i] == s[i]);
        }
        lemma_keep_every(d, p);
        assert(p(s[s.len() - 1]));
        assert(d.push(s.last()) =~= s);
    }
}

proof fn lemma_trim_plain(t: Seq<char>)
    requires
        plain_tag(t),
    ensures
        trim(t) == t,
        trim(seq![' '] + t) == t,
{
    let ws = |c: char| is_ws(c);
    lemma_lead_len_is(t, ws, 0);
    assert(t.skip(0) =~= t);
    lemma_trail_len_is(t, ws, 0);
    assert(t.take(t.len() as int) =~= t);
    let u = seq![' '] + t;
    assert(u[1] == t[0]);
    lemma_lead_len_is(u, ws, 1);
    assert(u.skip(1) =~= t);
}

proof fn lemma_join_ends(parts: Seq<Seq<char>>, sep: Seq<char>)
    requires
        parts.len() >= 1,
        forall|i: int| 0 <= i < parts.len() ==> #[trigger] parts[i].len() > 0,
    ensures
        join_with(parts, sep).len() > 0,
        join_with(parts, sep)[0] == parts[0][0],
        join_with(parts, sep)[join_with(parts, sep).len() - 1] == parts[parts.len() - 1][parts[parts.len() - 1].len() - 1],
    decreases parts.len(),
{
    if parts.len() > 1 {
        let d = parts.drop_last();
        assert forall|i: int| 0 <= i < d.len() implies #[trigger] d[i].len() > 0 by {
            assert(d[i] == parts[i]);
        }
        lemma_join_ends(d, sep);
        assert(parts[parts.len() - 1].len() > 0);
    }
}

proof fn lemma_join_lacks(parts: Seq<Seq<char>>, sep: Seq<char>, c: char)
    requires
        lacks(sep, c),
        forall|i: int| 0 <= i < parts.len() ==> lacks(#[trigger] parts[i], c),
    ensures
        lacks(join_with(parts, sep), c),
    decreases parts.len(),
{
    if parts.len() == 1 {
        assert(lacks(parts[0], c));
    } else if parts.len() > 1 {
        let d = parts.drop_last();
        assert forall|i: int| 0 <= i < d.len() implies lacks(#[trigger] d[i], c) by {
            assert(d[i] == parts[i]);
        }
        lemma_join_lacks(d, sep, c);
        let l = parts[parts.len() - 1];
        assert(lacks(l, c));
        let j = join_with(d, sep) + sep + l;
        assert forall|k: int| 0 <= k < j.len() implies j[k] != c by {
            if k < join_with(d, sep).len() {
            } else if k < join_with(d, sep).len() + sep.len() {
                assert(j[k] == sep[k - join_with(d, sep).len()]);
            } else {
                assert(j[k] == l[k - join_with(d, sep).len() - sep.len()]);
            }
        }
    }
}

/// The `tags: [..]` value written for plain tags reads back as those tags.
proof fn lemma_tag_list_roundtrip(tags: Seq<Seq<char>>)
    requires
        forall|i: int| 0 <= i < tags.len() ==> plain_tag(#[trigger] tags[i]),
    ensures
        tag_list(seq!['['] + join_with(tags, seq![',', ' ']) + seq![']']) == tags,
{
    let j = join_with(tags, seq![',', ' ']);
    let v = seq!['['] + j + seq![']'];
    let br = |c: char| is_bracket(c);
    let ws = |c: char| is_ws(c);
    if tags.len() == 0 {
        assert(j =~= Seq::<char>::empty());
        lemma_lead_len_is(v, br, 2);
        assert(v.skip(2) =~= Seq::<char>::empty());
        let e = Seq::<char>::empty();
        lemma_trail_len_is(e, br, 0);
        lemma_lead_len_is(e, ws, 0);
        lemma_trail_len_is(e, ws, 0);
        assert(e.take(0) =~= e);
        assert(e.skip(0) =~= e);
        assert(tags =~= Seq::<Seq<char>>::empty());
    } else {
        assert forall|i: int| 0 <= i < tags.len() implies #[trigger] tags[i].len() > 0 by {
            assert(plain_tag(tags[i]));
        }
        lemma_join_ends(tags, seq![',', ' ']);
        let t0 = tags[0];
        let tl = tags[tags.len() - 1];
        assert(plain_tag(t0));
        assert(plain_tag(tl));
        assert(j[0] == t0[0]);
        assert(!is_bracket(t0[0])) by {
            assert(lacks(t0, '['));
            assert(lacks(t0, ']'));
        }
        assert(!is_bracket(tl[tl.len() - 1])) by {
            assert(lacks(tl, '['));
            assert(lacks(tl, ']'));
        }
        assert(v[1] == j[0]);
        lemma_lead_len_is(v, br, 1);
        let u = v.skip(1);
        assert(u =~= j + seq![']']);
        assert(u[u.len() - 2] == j[j.len() - 1]);
        lemma_trail_len_is(u, br, 1);
        assert(u.take(u.len() - 1) =~= j);
        lemma_lead_len_is(j, ws, 0);
        assert(j.skip(0) =~= j);
        lemma_trail_len_is(j, ws, 0);
        assert(j.take(j.len() as int) =~= j);
        assert(trim(j) == j);
        lemma_join_comma_space(tags);
        let sp = spaced(tags);
        assert forall|i: int| 0 <= i < sp.len() implies lacks(#[trigger] sp[i], ',') by {
            assert(plain_tag(tags[i]));
            if i > 0 {
                let x = sp[i];
                assert(x == seq![' '] + tags[i]);
                assert forall|k: int| 0 <= k < x.len() implies x[k] != ',' by {
                    if k > 0 {
                        assert(x[k] == tags[i][k - 1]);
                    }
                }
            }
        }
        lemma_split_join(sp, ',');
        let f = |x: Seq<char>| trim(x);
        assert forall|i: int| 0 <= i < tags.len() implies #[trigger] sp.map_values(f)[i] == tags[i] by {
            lemma_trim_plain(tags[i]);
        }
        assert(sp.map_values(f) =~= tags);
        lemma_keep_every(tags, nonempty());
    }
}

/// `key: value`, a header line.
spec fn kv(key: Seq<char>, v: Seq<char>) -> Seq<char> {
    key + seq![':', ' '] + v
}

proof fn lemma_kv_split(key: Seq<char>, v: Seq<char>)
    requires
        lacks(key, ':'),
    ensures
        find_seq(kv(key, v), ": "@) == Some(key.len() as int),
        kv(key, v).take(key.len() as int) == key,
        kv(key, v).skip(key.len() + 2int) == v,
{
    reveal_strlit(": ");
    let line = kv(key, v);
    let n = seq![':', ' '];
    assert(": "@ =~= n);
    assert(line.subrange(key.len() as int, key.len() + 2int) =~= n);
    assert forall|j: int| 0 <= j < key.len() implies !occurs_at(line, n, j) by {
        assert(line[j] == key[j]);
        if occurs_at(line, n, j) {
            assert(line.subrange(j, j + 2)[0] == line[j]);
        }
    }
    lemma_find_first(line, n, 0, key.len() as int);
    assert(line.take(key.len() as int) =~= key);
    assert(line.skip(key.len() + 2int) =~= v);
}

/// The header lines a pad is written with, in order.
spec fn header_lines(p: PadV) -> Seq<Seq<char>> {
    let base = seq![kv("id"@, p.id)].push(kv("title"@, p.title)).push(
        kv("tags"@, seq!['['] + join_with(p.tags, seq![',', ' ']) + seq![']']),
    ).push(kv("status"@, p.status)).push(kv("revision"@, int_text(p.revision))).push(kv("created"@, p.created)).push(
        kv("updated"@, p.updated),
    );
    let b2 = if p.created_by.len() > 0 {
        base.push(kv("created_by"@, p.created_by))
    } else {
        base
    };
    if p.updated_by.len() > 0 {
        b2.push(kv("updated_by"@, p.updated_by))
    } else {
        b2
    }
}

proof fn lemma_apply_push(q: PadV, l: Seq<Seq<char>>, x: Seq<char>)
    ensures
        apply_lines(q, l.push(x)) == apply_line(apply_lines(q, l), x),
{
    assert(l.push(x).drop_last() =~= l);
}

/// Applying the header lines sets every field but the body.
proof fn lemma_apply_header(p: PadV)
    requires
        i64::MIN <= p.revision <= i64::MAX,
        forall|i: int| 0 <= i < p.tags.len() ==> plain_tag(#[trigger] p.tags[i]),
    ensures
        apply_lines(blank_pad(), header_lines(p)) == (PadV { content: Seq::empty(), ..p }),
{
    reveal_strlit("id");
    reveal_strlit("title");
    reveal_strlit("tags");
    reveal_strlit("status");
    reveal_strlit("revision");
    reveal_strlit("created");
    reveal_strlit("updated");
    reveal_strlit("created_by");
    reveal_strlit("updated_by");
    let b = blank_pad();
    let tv = seq!['['] + join_with(p.tags, seq![',', ' ']) + seq![']'];
    lemma_tag_list_roundtrip(p.tags);
    lemma_parse_int_text(p.revision as i64);
    assert(lacks("id"@, ':'));
    assert(lacks("title"@, ':'));
    assert(lacks("tags"@, ':'));
    assert(lacks("status"@, ':'));
    assert(lacks("revision"@, ':'));
    assert(lacks("created"@, ':'));
    assert(lacks("updated"@, ':'));
    assert(lacks("created_by"@, ':'));
    assert(lacks("updated_by"@, ':'));
    lemma_kv_split("id"@, p.id);
    lemma_kv_split("title"@, p.title);
    lemma_kv_split("tags"@, tv);
    lemma_kv_split("status"@, p.status);
    lemma_kv_split("revision"@, int_text(p.revision));
    lemma_kv_split("created"@, p.created);
    lemma_kv_split("updated"@, p.updated);
    lemma_kv_split("created_by"@, p.created_by);
    lemma_kv_split("updated_by"@, p.updated_by);
    let l1 = seq![kv("id"@, p.id)];
    assert(apply_lines(b, Seq::<Seq<char>>::empty()) == b);
    assert(Seq::<Seq<char>>::empty().push(kv("id"@, p.id)) =~= l1);
    lemma_apply_push(b, Seq::<Seq<char>>::empty(), kv("id"@, p.id));
    let s1 = apply_lines(b, l1);
    assert(s1 == PadV { id: p.id, ..b });
    let l2 = l1.push(kv("title"@, p.title));
    lemma_apply_push(b, l1, kv("title"@, p.title));
    let s2 = apply_lines(b, l2);
    assert(s2 == PadV { title: p.title, ..s1 });
    let l3 = l2.push(kv("tags"@, tv));
    lemma_apply_push(b, l2, kv("tags"@, tv));
    let s3 = apply_lines(b, l3);
    assert(s3 == PadV { tags: p.tags, ..s2 });
    let l4 = l3.push(kv("status"@, p.status));
    lemma_apply_push(b, l3, kv("status"@, p.status));
    let s4 = apply_lines(b, l4);
    assert(s4 == PadV { status: p.status, ..s3 });
    let l5 = l4.push(kv("revision"@, int_text(p.revision)));
    lemma_apply_push(b, l4, kv("revision"@, int_text(p.revision)));
    let s5 = apply_lines(b, l5);
    assert(s5 == PadV { revision: p.revision, ..s4 });
    let l6 = l5.push(kv("created"@, p.created));
    lemma_apply_push(b, l5, kv("created"@, p.created));
    let s6 = apply_lines(b, l6);
    assert(s6 == PadV { created: p.created, ..s5 });
    assert("updated"@[0] != "created"@[0]);
    assert("updated_by"@[0] != "created_by"@[0]);
    let l7 = l6.push(kv("updated"@, p.updated));
    lemma_apply_push(b, l6, kv("updated"@, p.updated));
    let s7 = apply_lines(b, l7);
    assert(s7 == PadV { updated: p.updated, ..s6 });
    let l8 = if p.created_by.len() > 0 { l7.push(kv("created_by"@, p.created_by)) } else { l7 };
    lemma_apply_push(b, l7, kv("created_by"@, p.created_by));
    let s8 = apply_lines(b, l8);
    if p.created_by.len() == 0 {
        assert(p.created_by =~= Seq::<char>::empty());
    }
    assert(s8 == PadV { created_by: p.created_by, ..s7 });
    let l9 = if p.updated_by.len() > 0 { l8.push(kv("updated_by"@, p.updated_by)) } else { l8 };
    lemma_apply_push(b, l8, kv("updated_by"@, p.updated_by));
    assert(l9 == header_lines(p));
    if p.updated_by.len() == 0 {
        assert(p.updated_by =~= Seq::<char>::empty());
    }
    assert(apply_lines(b, l9) == PadV { updated_by: p.updated_by, ..s8 });
}

proof fn lemma_kv_lacks(key: Seq<char>, v: Seq<char>, c: char)
    requires
        lacks(key, c),
        lacks(v, c),
        c != ':',
        c != ' ',
    ensures
        lacks(kv(key, v), c),
{
    let l = kv(key, v);
    assert forall|k: int| 0 <= k < l.len() implies l[k] != c by {
        if k < key.len() {
            assert(l[k] == key[k]);
        } else if k < key.len() + 2 {
        } else {
            assert(l[k] == v[k - key.len() - 2]);
        }
    }
}

proof fn lemma_int_text_lacks(n: int, c: char)
    requires
        c != '-',
        !('0' <= c && c <= '9'),
    ensures
        lacks(int_text(n), c),
{
    let t = int_text(n);
    if n < 0 {
        let d = dec_digits((-n) as nat);
        lemma_dec_digits_ok((-n) as nat);
        assert forall|k: int| 0 <= k < t.len() implies t[k] != c by {
            if k > 0 {
                assert(t[k] == d[k - 1]);
            }
        }
    } else {
        lemma_dec_digits_ok(n as nat);
    }
}

/// A pad the file format carries unchanged: one-line header values, plain
/// tags, and a revision in the `i64` range.
pub open spec fn pad_clean(p: PadV) -> bool {
    &&& lacks(p.id, '\n')
    &&& lacks(p.title, '\n')
    &&& lacks(p.status, '\n')
    &&& lacks(p.created, '\n')
    &&& lacks(p.updated, '\n')
    &&& lacks(p.created_by, '\n')
    &&& lacks(p.updated_by, '\n')
    &&& forall|i: int| 0 <= i < p.tags.len() ==> plain_tag(#[trigger] p.tags[i])
    &&& i64::MIN <= p.revision <= i64::MAX
}

/// Every header line is one non-empty line that starts with its key.
proof fn lemma_header_lines_ok(p: PadV)
    requires
        pad_clean(p),
    ensures
        header_lines(p).len() >= 1,
        forall|i: int| 0 <= i < header_lines(p).len() ==> lacks(#[trigger] header_lines(p)[i], '\n')
            && header_lines(p)[i].len() > 0 && header_lines(p)[i][0] != '-',
{
    reveal_strlit("id");
    reveal_strlit("title");
    reveal_strlit("tags");
    reveal_strlit("status");
    reveal_strlit("revision");
    reveal_strlit("created");
    reveal_strlit("updated");
    reveal_strlit("created_by");
    reveal_strlit("updated_by");
    let h = header_lines(p);
    let j = join_with(p.tags, seq![',', ' ']);
    let tv = seq!['['] + j + seq![']'];
    assert forall|i: int| 0 <= i < p.tags.len() implies lacks(#[trigger] p.tags[i], '\n') by {
        assert(plain_tag(p.tags[i]));
    }
    lemma_join_lacks(p.tags, seq![',', ' '], '\n');
    assert forall|k: int| 0 <= k < tv.len() implies tv[k] != '\n' by {
        if 0 < k < tv.len() - 1 {
            assert(tv[k] == j[k - 1]);
        }
    }
    lemma_int_text_lacks(p.revision, '\n');
    lemma_kv_lacks("id"@, p.id, '\n');
    lemma_kv_lacks("title"@, p.title, '\n');
    lemma_kv_lacks("tags"@, tv, '\n');
    lemma_kv_lacks("status"@, p.status, '\n');
    lemma_kv_lacks("revision"@, int_text(p.revision), '\n');
    lemma_kv_lacks("created"@, p.created, '\n');
    lemma_kv_lacks("updated"@, p.updated, '\n');
    lemma_kv_lacks("created_by"@, p.created_by, '\n');
    lemma_kv_lacks("updated_by"@, p.updated_by, '\n');
    assert(kv("id"@, p.id)[0] == 'i');
    assert(kv("title"@, p.title)[0] == 't');
    assert(kv("tags"@, tv)[0] == 't');
    assert(kv("status"@, p.status)[0] == 's');
    assert(kv("revision"@, int_text(p.revision))[0] == 'r');
    assert(kv("created"@, p.created)[0] == 'c');
    assert(kv("updated"@, p.updated)[0] == 'u');
    assert(kv("created_by"@, p.created_by)[0] == 'c');
    assert(kv("updated_by"@, p.updated_by)[0] == 'u');
}

proof fn lemma_join_push(l: Seq<Seq<char>>, x: Seq<char>, sep: Seq<char>)
    requires
        l.len() >= 1,
    ensures
        join_with(l.push(x), sep) == join_with(l, sep) + sep + x,
{
    assert(l.push(x).drop_last() =~= l);
}

/// The seven fixed header lines of a pad, in file order.
spec fn fixed_lines(p: PadV) -> Seq<Seq<char>> {
    seq![kv("id"@, p.id)].push(kv("title"@, p.title)).push(
        kv("tags"@, seq!['['] + join_with(p.tags, seq![',', ' ']) + seq![']']),
    ).push(kv("status"@, p.status)).push(kv("revision"@, int_text(p.revision))).push(kv("created"@, p.created)).push(
        kv("updated"@, p.updated),
    )
}

/// The text before the optional author lines is "---" and the fixed lines.
#[verifier::spinoff_prover]
#[verifier::rlimit(40)]
proof fn lemma_fixed_text(p: PadV)
    ensures
        "---\nid: "@ + p.id + "\ntitle: "@ + p.title + "\ntags: ["@ + join_with(p.tags, ", "@)
            + "]\nstatus: "@ + p.status + "\nrevision: "@ + int_text(p.revision) + "\ncreated: "@
            + p.created + "\nupdated: "@ + p.updated == seq!['-', '-', '-', '\n'] + join_with(
            fixed_lines(p),
            seq!['\n'],
        ),
{
    reveal_strlit("id");
    reveal_strlit("title");
    reveal_strlit("tags");
    reveal_strlit("status");
    reveal_strlit("revision");
    reveal_strlit("created");
    reveal_strlit("updated");
    reveal_strlit("---\nid: ");
    reveal_strlit("\ntitle: ");
    reveal_strlit("\ntags: [");
    reveal_strlit("]\nstatus: ");
    reveal_strlit("\nrevision: ");
    reveal_strlit("\ncreated: ");
    reveal_strlit("\nupdated: ");
    reveal_strlit(", ");
    let nl = seq!['\n'];
    let tv = seq!['['] + join_with(p.tags, seq![',', ' ']) + seq![']'];
    assert(", "@ =~= seq![',', ' ']);
    let l1 = seq![kv("id"@, p.id)];
    let l2 = l1.push(kv("title"@, p.title));
    let l3 = l2.push(kv("tags"@, tv));
    let l4 = l3.push(kv("status"@, p.status));
    let l5 = l4.push(kv("revision"@, int_text(p.revision)));
    let l6 = l5.push(kv("created"@, p.created));
    lemma_join_push(l1, kv("title"@, p.title), nl);
    lemma_join_push(l2, kv("tags"@, tv), nl);
    lemma_join_push(l3, kv("status"@, p.status), nl);
    lemma_join_push(l4, kv("revision"@, int_text(p.revision)), nl);
    lemma_join_push(l5, kv("created"@, p.created), nl);
    lemma_join_push(l6, kv("updated"@, p.updated), nl);
    let pre = "---\nid: "@ + p.id + "\ntitle: "@ + p.title + "\ntags: ["@ + join_with(p.tags, ", "@)
        + "]\nstatus: "@ + p.status + "\nrevision: "@ + int_text(p.revision) + "\ncreated: "@ + p.created
        + "\nupdated: "@ + p.updated;
    assert(pre =~= seq!['-', '-', '-', '\n'] + join_with(fixed_lines(p), nl));
}

/// A pad's file text is "---", its header lines, "---", then its body.
#[verifier::spinoff_prover]
#[verifier::rlimit(40)]
proof fn lemma_rendered_shape(p: PadV)
    ensures
        rendered(p) == seq!['-', '-', '-', '\n'] + join_with(header_lines(p), seq!['\n']) + seq![
            '\n',
            '-',
            '-',
            '-',
            '\n',
        ] + p.content,
{
    reveal_strlit("created_by");
    reveal_strlit("updated_by");
    reveal_strlit("\n");
    reveal_strlit(": ");
    reveal_strlit("---\n");
    lemma_fixed_text(p);
    let nl = seq!['\n'];
    let l7 = fixed_lines(p);
    let j7 = join_with(l7, nl);
    let pre = "---\nid: "@ + p.id + "\ntitle: "@ + p.title + "\ntags: ["@ + join_with(p.tags, ", "@)
        + "]\nstatus: "@ + p.status + "\nrevision: "@ + int_text(p.revision) + "\ncreated: "@ + p.created
        + "\nupdated: "@ + p.updated;
    let a1 = attr_line("created_by"@, p.created_by);
    let a2 = attr_line("updated_by"@, p.updated_by);
    assert(rendered(p) =~= pre + "\n"@ + a1 + a2 + "---\n"@ + p.content);
    let l8 = if p.created_by.len() > 0 { l7.push(kv("created_by"@, p.created_by)) } else { l7 };
    lemma_join_push(l7, kv("created_by"@, p.created_by), nl);
    let j8 = join_with(l8, nl);
    assert(j7 + "\n"@ + a1 =~= j8 + nl);
    let l9 = if p.updated_by.len() > 0 { l8.push(kv("updated_by"@, p.updated_by)) } else { l8 };
    lemma_join_push(l8, kv("updated_by"@, p.updated_by), nl);
    let j9 = join_with(l9, nl);
    assert(j8 + nl + a2 =~= j9 + nl);
    assert(l9 == header_lines(p));
}

/// Writing a pad to its file text and reading the text back gives the same
/// pad, whenever the header values are single lines and the tags are plain
/// (non-empty, no surrounding space, no commas, brackets or line breaks).
#[verifier::spinoff_prover]
#[verifier::rlimit(40)]
pub proof fn law_pad_file_roundtrip(p: PadV)
    requires
        pad_clean(p),
    ensures
        pad_of_text(rendered(p)) == p,
{
    reveal_strlit("---\n");
    reveal_strlit("\n---\n");
    let h = header_lines(p);
    let nl = seq!['\n'];
    let j = join_with(h, nl);
    let close = seq!['\n', '-', '-', '-', '\n'];
    lemma_rendered_shape(p);
    lemma_header_lines_ok(p);
    let text = rendered(p);
    assert(text =~= seq!['-', '-', '-', '\n'] + j + close + p.content);
    assert("---\n"@ =~= seq!['-', '-', '-', '\n']);
    assert("\n---\n"@ =~= close);
    assert(text.take(4) =~= "---\n"@);
    assert(starts_with(text, "---\n"@));
    let rest = text.skip(4);
    assert(rest =~= j + close + p.content);
    assert(rest.subrange(j.len() as int, j.len() + 5int) =~= close);
    assert(occurs_at(rest, close, j.len() as int));
    assert forall|k: int| 0 <= k < j.len() implies !occurs_at(rest, close, k) by {
        if occurs_at(rest, close, k) {
            assert(rest.subrange(k, k + 5)[0] == rest[k]);
            assert(rest.subrange(k, k + 5)[1] == rest[k + 1]);
            assert(rest[k] == j[k]);
            lemma_join_newline_next(h, k);
            assert(rest[k + 1] == j[k + 1]);
            let i = choose|i: int| 0 < i < h.len() && #[trigger] h[i][0] == j[k + 1];
            assert(h[i][0] != '-');
        }
    }
    lemma_find_first(rest, close, 0, j.len() as int);
    assert(find_seq(rest, "\n---\n"@) == Some(j.len() as int));
    assert(rest.take(j.len() as int) =~= j);
    lemma_split_join(h, '\n');
    assert(rest.skip(j.len() + 5int) =~= p.content);
    lemma_apply_header(p);
}



/// A pad created with an id no other pad has is what reading that id gives
/// back, body included.
pub proof fn law_pad_read_after_create(old: Seq<PadV>, s: PadV)
    requires
        !has_pad(old, s.id),
    ensures
        has_pad(old.push(s), s.id),
        old.push(s)[first_pad(old.push(s), s.id)] == s,
{
    let ps = old.push(s);
    assert forall|j: int| 0 <= j < old.len() implies #[trigger] ps[j].id != s.id by {
        assert(ps[j] == old[j]);
    }
    assert(pad_at(ps, s.id, old.len() as int));
    lemma_first_pad(ps, s.id, old.len() as int);
}

/// Decimal digits padded with zeros are digits.
proof fn lemma_padded_digits(n: nat, w: nat)
    ensures
        all_digits(dec_padded(n, w)),
{
    lemma_dec_digits_ok(n);
    let d = dec_digits(n);
    if d.len() < w {
        let z = Seq::new((w - d.len()) as nat, |i: int| '0');
        let t = z + d;
        assert forall|k: int| 0 <= k < t.len() implies is_digit(#[trigger] t[k]) by {
            if k >= z.len() {
                assert(t[k] == d[k - z.len()]);
            }
        }
    }
}

proof fn lemma_digits_lack_newline(s: Seq<char>)
    requires
        all_digits(s),
    ensures
        lacks(s, '\n'),
{
    assert forall|k: int| 0 <= k < s.len() implies s[k] != '\n' by {
        assert(is_digit(s[k]));
    }
}

/// A timestamp is one line.
proof fn lemma_stamp_one_line(t: Seq<char>)
    requires
        is_stamp(t),
    ensures
        lacks(t, '\n'),
{
    let su = choose|secs: u64| t == rfc3339_text(secs as int);
    let secs: int = su as int;
    let (y, m, d) = civil_of(secs / 86400);
    let rem = secs % 86400;
    let a = dec_padded(y as nat, 4);
    let b = dec_padded(m as nat, 2);
    let c = dec_padded(d as nat, 2);
    let e = dec_padded((rem / 3600) as nat, 2);
    let f = dec_padded(((rem % 3600) / 60) as nat, 2);
    let g = dec_padded((rem % 60) as nat, 2);
    lemma_padded_digits(y as nat, 4);
    lemma_padded_digits(m as nat, 2);
    lemma_padded_digits(d as nat, 2);
    lemma_padded_digits((rem / 3600) as nat, 2);
    lemma_padded_digits(((rem % 3600) / 60) as nat, 2);
    lemma_padded_digits((rem % 60) as nat, 2);
    lemma_digits_lack_newline(a);
    lemma_digits_lack_newline(b);
    lemma_digits_lack_newline(c);
    lemma_digits_lack_newline(e);
    lemma_digits_lack_newline(f);
    lemma_digits_lack_newline(g);
    let s1 = a + seq!['-'];
    lemma_cat_lacks(a, seq!['-'], '\n');
    lemma_cat_lacks(s1, b, '\n');
    let s2 = s1 + b + seq!['-'];
    lemma_cat_lacks(s1 + b, seq!['-'], '\n');
    lemma_cat_lacks(s2, c, '\n');
    let s3 = s2 + c + seq!['T'];
    lemma_cat_lacks(s2 + c, seq!['T'], '\n');
    lemma_cat_lacks(s3, e, '\n');
    let s4 = s3 + e + seq![':'];
    lemma_cat_lacks(s3 + e, seq![':'], '\n');
    lemma_cat_lacks(s4, f, '\n');
    let s5 = s4 + f + seq![':'];
    lemma_cat_lacks(s4 + f, seq![':'], '\n');
    lemma_cat_lacks(s5, g, '\n');
    lemma_cat_lacks(s5 + g, seq!['Z'], '\n');
    assert(t == s5 + g + seq!['Z']);
}

proof fn lemma_cat_lacks(a: Seq<char>, b: Seq<char>, c: char)
    requires
        lacks(a, c),
        lacks(b, c),
    ensures
        lacks(a + b, c),
{
    assert forall|k: int| 0 <= k < (a + b).len() implies (a + b)[k] != c by {
        if k >= a.len() {
            assert((a + b)[k] == b[k - a.len()]);
        }
    }
}

/// Base-36 digits are one line.
proof fn lemma_b36_one_line(n: nat)
    ensures
        lacks(b36_digits(n), '\n'),
    decreases n,
{
    if n < 36 {
        assert(b36_digits(n)[0] == b36_char(n as int));
    } else {
        lemma_b36_one_line(n / 36);
        let h = b36_digits(n / 36);
        let t = h.push(b36_char((n % 36) as int));
        assert forall|k: int| 0 <= k < t.len() implies t[k] != '\n' by {
            if k < h.len() {
                assert(t[k] == h[k]);
            }
        }
    }
}

/// An id is one line.
proof fn lemma_id_one_line(prefix: Seq<char>, t: Seq<char>)
    requires
        is_id(prefix, t),
        lacks(prefix, '\n'),
    ensures
        lacks(t, '\n'),
{
    let (nanos, n) = choose|nanos: u64, n: u64| t == id_text(prefix, nanos as nat, n as nat);
    lemma_b36_one_line(nanos as nat);
    lemma_b36_one_line((n % 1296) as nat);
    lemma_cat_lacks(prefix, b36_digits(nanos as nat), '\n');
    lemma_cat_lacks(prefix + b36_digits(nanos as nat), b36_digits((n % 1296) as nat), '\n');
}

/// A pad made by `create_scratchpad`, from a one-line title and actor and
/// plain tags, survives writing it to its file text and reading that text
/// back: id, title, tags, status, revision 1, stamps, attribution and body.
/// When no other pad had its id, reading that id gives it back.
pub proof fn law_created_pad_round_trip(
    old: Seq<PadV>,
    s: PadV,
    title: Seq<char>,
    content: Seq<char>,
    tags: Seq<Seq<char>>,
    actor: Seq<char>,
)
    requires
        fresh_pad(s, title, content, tags, actor),
        lacks(title, '\n'),
        lacks(actor, '\n'),
        forall|i: int| 0 <= i < tags.len() ==> plain_tag(#[trigger] tags[i]),
    ensures
        pad_of_text(rendered(s)) == s,
        !has_pad(old, s.id) ==> has_pad(old.push(s), s.id) && old.push(s)[first_pad(old.push(s), s.id)] == s,
{
    reveal_strlit("s_");
    reveal_strlit("active");
    if !has_pad(old, s.id) {
        law_pad_read_after_create(old, s);
    }
    lemma_id_one_line("s_"@, s.id);
    lemma_stamp_one_line(s.created);
    lemma_stamp_one_line(s.updated);
    assert(lacks(s.status, '\n'));
    assert(pad_clean(s));
    law_pad_file_roundtrip(s);
}

// ------------------------------------------------------------ listing order
/// `text_lt` never holds both ways.
pub proof fn lemma_text_lt_asymmetric(a: Seq<char>, b: Seq<char>)
    ensures
        text_lt(a, b) ==> !text_lt(b, a),
    decreases a.len(),
{
    if a.len() > 0 && b.len() > 0 && a[0] == b[0] {
        lemma_text_lt_asymmetric(a.drop_first(), b.drop_first());
    }
}

proof fn lemma_todo_order_asymmetric(mode: u8)
    ensures
        asymmetric(before_fn::<Todo>(mode)),
{
    assert forall|a: TodoV, b: TodoV| #[trigger] before_fn::<Todo>(mode)(a, b) implies !before_fn::<Todo>(mode)(b, a) by {
        lemma_text_lt_asymmetric(a.created, b.created);
        lemma_text_lt_asymmetric(b.created, a.created);
        lemma_text_lt_asymmetric(a.updated, b.updated);
        lemma_text_lt_asymmetric(b.updated, a.updated);
        lemma_text_lt_asymmetric(opt_text(a.completed), opt_text(b.completed));
        lemma_text_lt_asymmetric(opt_text(b.completed), opt_text(a.completed));
    }
}

proof fn lemma_pad_order_asymmetric(mode: u8)
    ensures
        asymmetric(before_fn::<Scratchpad>(mode)),
{
    assert forall|a: PadV, b: PadV| #[trigger] before_fn::<Scratchpad>(mode)(a, b) implies !before_fn::<Scratchpad>(mode)(b, a) by {
        lemma_text_lt_asymmetric(pad_file(a.id), pad_file(b.id));
        lemma_text_lt_asymmetric(pad_file(b.id), pad_file(a.id));
        lemma_text_lt_asymmetric(a.updated, b.updated);
        lemma_text_lt_asymmetric(b.updated, a.updated);
    }
}

/// A page of an ordered sequence is ordered.
proof fn lemma_paged_in_order<V>(s: Seq<V>, lt: spec_fn(V, V) -> bool, offset: int, limit: int)
    requires
        in_order(s, lt),
    ensures
        in_order(paged(s, offset, limit), lt),
{
    let off = if offset < 0 { 0 } else if offset > s.len() { s.len() as int } else { offset };
    let r = paged(s, offset, limit);
    assert forall|i: int, j: int| 0 <= i && j == i + 1 && j < r.len() implies !lt(#[trigger] r[j], #[trigger] r[i]) by {
        assert(r[i] == s[off + i] && r[j] == s[off + j]);
    }
}

/// Listed todos come in the order their sort key names: with no key (or
/// "created-desc") each todo was created no earlier than the next; with
/// "created-asc" no later; "updated-desc" / "updated-asc" order by the last
/// update the same ways; "completed-desc" / "completed-asc" by the completion
/// stamp (none counting as the empty text); "priority" puts no todo of a
/// lower-ranked priority ahead of a higher-ranked one.
pub proof fn law_listed_todos_in_order(all: Seq<TodoV>, f: FilterV)
    ensures
        ({
            let r = listed(all, f);
            forall|i: int, j: int| 0 <= i && j == i + 1 && j < r.len() ==> {
                let (a, b) = (#[trigger] r[i], #[trigger] r[j]);
                &&& (f.sort == ""@ || f.sort == "created-desc"@) ==> !text_lt(a.created, b.created)
                &&& f.sort == "created-asc"@ ==> !text_lt(b.created, a.created)
                &&& f.sort == "updated-desc"@ ==> !text_lt(a.updated, b.updated)
                &&& f.sort == "updated-asc"@ ==> !text_lt(b.updated, a.updated)
                &&& f.sort == "completed-desc"@ ==> !text_lt(opt_text(a.completed), opt_text(b.completed))
                &&& f.sort == "completed-asc"@ ==> !text_lt(opt_text(b.completed), opt_text(a.completed))
                &&& f.sort == "priority"@ ==> prio_rank(a.priority) <= prio_rank(b.priority)
            }
        }),
{
    reveal_strlit("");
    reveal_strlit("created-desc");
    reveal_strlit("created-asc");
    reveal_strlit("updated-desc");
    reveal_strlit("updated-asc");
    reveal_strlit("completed-desc");
    reveal_strlit("completed-asc");
    reveal_strlit("priority");
    assert("created-desc"@[0] != "updated-desc"@[0]);
    assert("created-asc"@[0] != "updated-asc"@[0]);
    assert(""@.len() == 0 && "created-desc"@.len() == 12 && "completed-desc"@.len() == 14);
    assert("priority"@.len() == 8 && "created-asc"@.len() == 11 && "updated-desc"@.len() == 12);
    assert("updated-asc"@.len() == 11 && "completed-asc"@.len() == 13);
    assert(f.sort == ""@ ==> sort_mode(f.sort) == 0);
    assert(f.sort == "created-desc"@ ==> sort_mode(f.sort) == 0);
    assert(f.sort == "created-asc"@ ==> sort_mode(f.sort) == 2);
    assert(f.sort == "updated-desc"@ ==> sort_mode(f.sort) == 3);
    assert(f.sort == "updated-asc"@ ==> sort_mode(f.sort) == 4);
    assert(f.sort == "completed-desc"@ ==> sort_mode(f.sort) == 5);
    assert(f.sort == "completed-asc"@ ==> sort_mode(f.sort) == 6);
    assert(f.sort == "priority"@ ==> sort_mode(f.sort) == 1);
    let m = sort_mode(f.sort);
    let lt = before_fn::<Todo>(m);
    let shown = keep(all, passes_fn(all, f));
    lemma_todo_order_asymmetric(m);
    law_sort_in_order(shown, lt);
    lemma_paged_in_order(stable_sort(shown, lt), lt, f.offset, f.limit);
    let r = listed(all, f);
    assert forall|i: int, j: int| 0 <= i && j == i + 1 && j < r.len() implies {
        let (a, b) = (#[trigger] r[i], #[trigger] r[j]);
        &&& (f.sort == ""@ || f.sort == "created-desc"@) ==> !text_lt(a.created, b.created)
        &&& f.sort == "created-asc"@ ==> !text_lt(b.created, a.created)
        &&& f.sort == "updated-desc"@ ==> !text_lt(a.updated, b.updated)
        &&& f.sort == "updated-asc"@ ==> !text_lt(b.updated, a.updated)
        &&& f.sort == "completed-desc"@ ==> !text_lt(opt_text(a.completed), opt_text(b.completed))
        &&& f.sort == "completed-asc"@ ==> !text_lt(opt_text(b.completed), opt_text(a.completed))
        &&& f.sort == "priority"@ ==> prio_rank(a.priority) <= prio_rank(b.priority)
    } by {
        assert(!lt(r[j], r[i]));
    }
}

/// Listed scratchpads come newest-updated first: no pad was updated before
/// the pad after it.
pub proof fn law_listed_pads_newest_first(
    ps: Seq<PadV>,
    tags: Seq<Seq<char>>,
    query: Seq<char>,
    include_archived: bool,
    offset: int,
    limit: int,
)
    ensures
        ({
            let r = pads_listed(ps, tags, query, include_archived, offset, limit);
            forall|i: int, j: int| 0 <= i && j == i + 1 && j < r.len() ==> !text_lt(#[trigger] r[i].updated, #[trigger] r[j].updated)
        }),
{
    let by_name = stable_sort(ps, before_fn::<Scratchpad>(0));
    let shown = keep(by_name, pad_listed_fn(tags, query, include_archived)).map_values(|p: PadV| without_body(p));
    let lt = before_fn::<Scratchpad>(1);
    lemma_pad_order_asymmetric(1);
    law_sort_in_order(shown, lt);
    lemma_paged_in_order(stable_sort(shown, lt), lt, offset, limit);
    let r = pads_listed(ps, tags, query, include_archived, offset, limit);
    assert forall|i: int, j: int| 0 <= i && j == i + 1 && j < r.len() implies !text_lt(#[trigger] r[i].updated, #[trigger] r[j].updated) by {
        assert(!lt(r[j], r[i]));
    }
}

// ------------------------------------------------------------ rendering
/// A todo's list row opens with a checked box exactly when it is completed.
pub proof fn law_todo_row_checkbox(t: TodoV, blocked: bool)
    ensures
        todo_row(t, blocked).take(5) == (if t.status == "completed"@ { "- [x]"@ } else { "- [ ]"@ }),
{
    reveal_strlit("- [");
    reveal_strlit("x");
    reveal_strlit(" ");
    reveal_strlit("- [x]");
    reveal_strlit("- [ ]");
    reveal_strlit("] ");
    let row = todo_row(t, blocked);
    let head = "- ["@ + (if t.status == "completed"@ { "x"@ } else { " "@ }) + "] "@;
    assert(row.take(5) =~= head.take(5));
    assert(head.take(5) =~= (if t.status == "completed"@ { "- [x]"@ } else { "- [ ]"@ }));
}

// ------------------------------------------------------------ finding
proof fn lemma_hits_lines(lines: Seq<Seq<char>>, needle: Seq<char>, scope: Seq<char>, cs: bool, ctx: int, k: int)
    requires
        0 <= k <= lines.len(),
    ensures
        forall|m: int| 0 <= m < hits_upto(lines, needle, scope, cs, ctx, k).len() ==> {
            let h = #[trigger] hits_upto(lines, needle, scope, cs, ctx, k)[m];
            0 <= h.0 < k && h.1 == lines[h.0] && line_hit(lines[h.0], needle, scope, cs)
        },
        forall|i: int| 0 <= i < k && #[trigger] line_hit(lines[i], needle, scope, cs) ==> exists|m: int|
            0 <= m < hits_upto(lines, needle, scope, cs, ctx, k).len() && (#[trigger] hits_upto(lines, needle, scope, cs, ctx, k)[m]).0 == i,
    decreases k,
{
    if k > 0 {
        lemma_hits_lines(lines, needle, scope, cs, ctx, k - 1);
        let prev = hits_upto(lines, needle, scope, cs, ctx, k - 1);
        let cur = hits_upto(lines, needle, scope, cs, ctx, k);
        assert forall|i: int| 0 <= i < k && #[trigger] line_hit(lines[i], needle, scope, cs) implies exists|m: int|
            0 <= m < cur.len() && (#[trigger] cur[m]).0 == i by {
            if i < k - 1 {
                let m = choose|m: int| 0 <= m < prev.len() && (#[trigger] prev[m]).0 == i;
                assert(cur[m] == prev[m]);
            } else {
                assert(cur[prev.len() as int].0 == i);
            }
        }
        assert forall|m: int| 0 <= m < cur.len() implies {
            let h = #[trigger] cur[m];
            0 <= h.0 < k && h.1 == lines[h.0] && line_hit(lines[h.0], needle, scope, cs)
        } by {
            if m < prev.len() {
                assert(cur[m] == prev[m]);
            }
        }
    }
}

/// A case-insensitive search outside the headings scope reports exactly the
/// lines whose lower-cased text contains the lower-cased query, each with
/// its number and text, in line order.
pub proof fn law_find_ignores_case(content: Seq<char>, query: Seq<char>, scope: Seq<char>, ctx: int)
    requires
        scope != "headings"@,
    ensures
        ({
            let lines = lines_of(content);
            let found = found_in(content, query, scope, false, ctx);
            &&& forall|m: int| 0 <= m < found.len() ==> {
                let h = #[trigger] found[m];
                0 <= h.0 < lines.len() && h.1 == lines[h.0] && contains_seq(lower(lines[h.0]), lower(query))
            }
            &&& forall|i: int| 0 <= i < lines.len() && contains_seq(lower(#[trigger] lines[i]), lower(query))
                ==> exists|m: int| 0 <= m < found.len() && (#[trigger] found[m]).0 == i
            &&& forall|m: int, n: int| 0 <= m < n < found.len() ==> (#[trigger] found[m]).0 < (#[trigger] found[n]).0
        }),
{
    let lines = lines_of(content);
    let needle = lower(query);
    let k = lines.len() as int;
    lemma_hits_lines(lines, needle, scope, false, ctx, k);
    lemma_hits_increasing(lines, needle, scope, false, ctx, k);
    let found = found_in(content, query, scope, false, ctx);
    assert(found == hits_upto(lines, needle, scope, false, ctx, k));
    assert forall|i: int| 0 <= i < lines.len() && contains_seq(lower(#[trigger] lines[i]), lower(query))
        implies exists|m: int| 0 <= m < found.len() && (#[trigger] found[m]).0 == i by {
        assert(line_hit(lines[i], needle, scope, false));
    }
}

/// A case-sensitive search outside the headings scope reports exactly the
/// lines that contain the query as given, each with its number and text.
pub proof fn law_find_exact_case(content: Seq<char>, query: Seq<char>, scope: Seq<char>, ctx: int)
    requires
        scope != "headings"@,
    ensures
        ({
            let lines = lines_of(content);
            let found = found_in(content, query, scope, true, ctx);
            &&& forall|m: int| 0 <= m < found.len() ==> {
                let h = #[trigger] found[m];
                0 <= h.0 < lines.len() && h.1 == lines[h.0] && contains_seq(lines[h.0], query)
            }
            &&& forall|i: int| 0 <= i < lines.len() && contains_seq(#[trigger] lines[i], query)
                ==> exists|m: int| 0 <= m < found.len() && (#[trigger] found[m]).0 == i
        }),
{
    let lines = lines_of(content);
    let k = lines.len() as int;
    lemma_hits_lines(lines, query, scope, true, ctx, k);
    let found = found_in(content, query, scope, true, ctx);
    assert(found == hits_upto(lines, query, scope, true, ctx, k));
    assert forall|i: int| 0 <= i < lines.len() && contains_seq(#[trigger] lines[i], query)
        implies exists|m: int| 0 <= m < found.len() && (#[trigger] found[m]).0 == i by {
        assert(line_hit(lines[i], query, scope, true));
    }
}

proof fn lemma_hits_increasing(lines: Seq<Seq<char>>, needle: Seq<char>, scope: Seq<char>, cs: bool, ctx: int, k: int)
    requires
        0 <= k <= lines.len(),
    ensures
        forall|m: int, n: int| 0 <= m < n < hits_upto(lines, needle, scope, cs, ctx, k).len()
            ==> (#[trigger] hits_upto(lines, needle, scope, cs, ctx, k)[m]).0 < (#[trigger] hits_upto(lines, needle, scope, cs, ctx, k)[n]).0,
    decreases k,
{
    if k > 0 {
        lemma_hits_increasing(lines, needle, scope, cs, ctx, k - 1);
        lemma_hits_lines(lines, needle, scope, cs, ctx, k - 1);
        let prev = hits_upto(lines, needle, scope, cs, ctx, k - 1);
        let cur = hits_upto(lines, needle, scope, cs, ctx, k);
        assert forall|m: int, n: int| 0 <= m < n < cur.len() implies (#[trigger] cur[m]).0 < (#[trigger] cur[n]).0 by {
            assert(cur[m] == prev[m]);
            if n < prev.len() {
                assert(cur[n] == prev[n]);
            } else {
                assert(prev[m].0 < k - 1);
            }
        }
    }
}

// ------------------------------------------------------------ blockers
proof fn lemma_last_status_at(all: Seq<TodoV>, id: Seq<char>, j: int)
    requires
        0 <= j < all.len(),
        all[j].id == id,
        forall|k: int| j < k < all.len() ==> #[trigger] all[k].id != id,
    ensures
        last_status(all, id) == Some(all[j].status),
    decreases all.len(),
{
    if j < all.len() - 1 {
        let d = all.drop_last();
        assert forall|k: int| j < k < d.len() implies #[trigger] d[k].id != id by {
            assert(d[k] == all[k]);
        }
        lemma_last_status_at(d, id, j);
        assert(d[j] == all[j]);
    }
}

proof fn lemma_last_status_none(all: Seq<TodoV>, id: Seq<char>)
    requires
        forall|k: int| 0 <= k < all.len() ==> #[trigger] all[k].id != id,
    ensures
        last_status(all, id) is None,
    decreases all.len(),
{
    if all.len() > 0 {
        let d = all.drop_last();
        assert forall|k: int| 0 <= k < d.len() implies #[trigger] d[k].id != id by {
            assert(d[k] == all[k]);
        }
        lemma_last_status_none(d, id);
    }
}

/// Which todo an id names: the last one carrying it.
pub open spec fn named_by(all: Seq<TodoV>, id: Seq<char>, j: int) -> bool {
    &&& 0 <= j < all.len()
    &&& all[j].id == id
    &&& forall|k: int| j < k < all.len() ==> #[trigger] all[k].id != id
}

/// The id names a completed todo.
pub open spec fn names_done(all: Seq<TodoV>, id: Seq<char>) -> bool {
    exists|k: int| #[trigger] named_by(all, id, k) && all[k].status == "completed"@
}

/// A todo is blocked when one of its blockers names no todo, or names one
/// that is not completed, whatever its other blockers are; it is unblocked
/// when every blocker names a completed todo (in particular, when it has
/// none).
pub proof fn law_blocked_by_any_open_blocker(t: TodoV, all: Seq<TodoV>, b: Seq<char>, j: int)
    ensures
        t.blockers.contains(b) && (forall|k: int| 0 <= k < all.len() ==> #[trigger] all[k].id != b)
            ==> is_blocked_by(t, all),
        t.blockers.contains(b) && named_by(all, b, j) && all[j].status != "completed"@ ==> is_blocked_by(t, all),
        (forall|i: int| 0 <= i < t.blockers.len() ==> #[trigger] names_done(all, t.blockers[i])) ==> !is_blocked_by(t, all),
{
    if t.blockers.contains(b) {
        let i = choose|i: int| 0 <= i < t.blockers.len() && t.blockers[i] == b;
        if forall|k: int| 0 <= k < all.len() ==> #[trigger] all[k].id != b {
            lemma_last_status_none(all, b);
            assert(last_status(all, t.blockers[i]) != Some("completed"@));
        }
        if named_by(all, b, j) && all[j].status != "completed"@ {
            lemma_last_status_at(all, b, j);
            assert(last_status(all, t.blockers[i]) != Some("completed"@));
        }
    }
    if forall|i: int| 0 <= i < t.blockers.len() ==> #[trigger] names_done(all, t.blockers[i]) {
        assert forall|i: int| 0 <= i < t.blockers.len() implies last_status(all, #[trigger] t.blockers[i]) == Some("completed"@) by {
            assert(names_done(all, t.blockers[i]));
            let k = choose|k: int| #[trigger] named_by(all, t.blockers[i], k) && all[k].status == "completed"@;
            lemma_last_status_at(all, t.blockers[i], k);
        }
    }
}

// ------------------------------------------------------------ the panes
/// A reload keeps the cursor on the item the detail view or editor has open
/// (or on the row that was selected in the list), whenever that item is
/// still listed, however the reload re-sorted the list.
pub proof fn law_reload_keeps_open_item(pre: App, post: App, id: Seq<char>)
    requires
        reloaded(pre, post),
        pin_target(pre) == Some(id),
        row_ids(post).contains(id),
    ensures
        sel(post) == Some(id),
{
    let ids = row_ids(post);
    let j = choose|j: int| 0 <= j < ids.len() && ids[j] == id;
    lemma_first_pos_found(ids, id, j);
    lemma_first_pos(ids, id);
    lemma_rows_fit(post);
    let i = first_pos(ids, id)->0;
    assert(pinned(cur(pre), ids, Some(id)) == i);
    assert(clamped(i, 0, ids.len() as int) == i);
    assert(post.nav.tab == pre.nav.tab);
    assert(post.nav.cursor@[tab_index(post.nav.tab) as int] == i as usize);
    assert(cur(post) == i);
}

} // verus!
