//! Lexicographic text order and a stable insertion sort.
use vstd::prelude::*;
use crate::text::{to_chars, from_chars};

verus! {

/// `a < b` for Rust strings: lexicographic by code point.
pub open spec fn text_lt(a: Seq<char>, b: Seq<char>) -> bool
    decreases a.len(),
{
    if a.len() == 0 {
        b.len() > 0
    } else if b.len() == 0 {
        false
    } else if a[0] != b[0] {
        a[0] < b[0]
    } else {
        text_lt(a.drop_first(), b.drop_first())
    }
}

pub fn chars_lt(a: &Vec<char>, b: &Vec<char>) -> (r: bool)
    ensures
        r == text_lt(a@, b@),
{
    let mut i: usize = 0;
    assert(a@.skip(0) == a@ && b@.skip(0) == b@);
    while i < a.len() && i < b.len()
        invariant
            0 <= i <= a.len(),
            i <= b.len(),
            text_lt(a@, b@) == text_lt(a@.skip(i as int), b@.skip(i as int)),
        decreases a.len() - i,
    {
        let ghost sa = a@.skip(i as int);
        let ghost sb = b@.skip(i as int);
        assert(sa[0] == a@[i as int] && sb[0] == b@[i as int]);
        if a[i] != b[i] {
            return a[i] < b[i];
        }
        assert(sa.drop_first() == a@.skip(i + 1));
        assert(sb.drop_first() == b@.skip(i + 1));
        i += 1;
    }
    assert(a@.skip(i as int).len() == a.len() - i);
    i == a.len() && i < b.len()
}

pub proof fn lemma_text_lt_irrefl(a: Seq<char>)
    ensures
        !text_lt(a, a),
    decreases a.len(),
{
    if a.len() > 0 {
        lemma_text_lt_irrefl(a.drop_first());
    }
}

pub proof fn lemma_text_lt_trans(a: Seq<char>, b: Seq<char>, c: Seq<char>)
    requires
        text_lt(a, b),
        text_lt(b, c),
    ensures
        text_lt(a, c),
    decreases a.len(),
{
    if a.len() > 0 && b.len() > 0 && c.len() > 0 && a[0] == b[0] && b[0] == c[0] {
        lemma_text_lt_trans(a.drop_first(), b.drop_first(), c.drop_first());
    }
}

pub proof fn lemma_text_lt_total(a: Seq<char>, b: Seq<char>)
    ensures
        text_lt(a, b) || text_lt(b, a) || a == b,
    decreases a.len(),
{
    if a.len() > 0 && b.len() > 0 {
        if a[0] == b[0] {
            lemma_text_lt_total(a.drop_first(), b.drop_first());
            if a.drop_first() == b.drop_first() {
                assert(a =~= seq![a[0]] + a.drop_first());
                assert(b =~= seq![b[0]] + b.drop_first());
            }
        } else {
            assert(a[0] as int != b[0] as int);
        }
    } else if a.len() == 0 && b.len() == 0 {
        assert(a =~= b);
    }
}

pub proof fn lemma_take_contains<V>(s: Seq<V>, k: int, y: V)
    requires
        0 <= k < s.len(),
    ensures
        s.take(k + 1).contains(y) <==> (s.take(k).contains(y) || s[k] == y),
{
    let a = s.take(k + 1);
    let b = s.take(k);
    if a.contains(y) {
        let j = choose|j: int| 0 <= j < a.len() && a[j] == y;
        if j < k {
            assert(b[j] == y);
        }
    }
    if b.contains(y) {
        let j = choose|j: int| 0 <= j < b.len() && b[j] == y;
        assert(a[j] == y);
    }
    if s[k] == y {
        assert(a[k] == y);
    }
}

/// Strictly ascending: each text sorts before every later one.
pub open spec fn ascending(v: Seq<Seq<char>>) -> bool {
    forall|i: int, j: int| 0 <= i < j < v.len() ==> text_lt(#[trigger] v[i], #[trigger] v[j])
}

/// Adds `x` to a strictly ascending list of strings, keeping it strictly
/// ascending (nothing changes when `x` is already there).
pub fn insert_sorted_unique(v: &mut Vec<String>, x: &str)
    requires
        ascending(old(v).deep_view()),
    ensures
        ascending(final(v).deep_view()),
        forall|y: Seq<char>| final(v).deep_view().contains(y) <==> (old(v).deep_view().contains(y) || y == x@),
{
    let xs = to_chars(x);
    let ghost v0 = v.deep_view();
    let mut p: usize = 0;
    while p < v.len() && chars_lt(&to_chars(v[p].as_str()), &xs)
        invariant
            0 <= p <= v.len(),
            v.deep_view() == v0,
            xs@ == x@,
            forall|j: int| 0 <= j < p ==> text_lt(#[trigger] v0[j], x@),
        decreases v.len() - p,
    {
        p += 1;
    }
    if p < v.len() && crate::text::eq_chars(&to_chars(v[p].as_str()), &xs) {
        assert(v0[p as int] == x@);
        assert forall|y: Seq<char>| v.deep_view().contains(y) <==> (v0.contains(y) || y == x@) by {
            if y == x@ {
                assert(v.deep_view()[p as int] == y);
            }
        }
        return;
    }
    proof {
        if p < v0.len() {
            lemma_text_lt_total(v0[p as int], x@);
        }
    }
    let s = from_chars(&xs);
    v.insert(p, s);
    let ghost v1 = v.deep_view();
    assert(v1 =~= v0.take(p as int).push(x@) + v0.skip(p as int));
    assert forall|i: int, j: int| 0 <= i < j < v1.len() implies text_lt(#[trigger] v1[i], #[trigger] v1[j]) by {
        if i < p && j < p {
        } else if i < p && j == p {
        } else if i < p && j > p {
            assert(v1[j] == v0[j - 1]);
        } else if i == p {
            assert(v1[j] == v0[j - 1]);
            if j - 1 > p {
                assert(text_lt(v0[p as int], v0[j - 1]));
                lemma_text_lt_trans(x@, v0[p as int], v0[j - 1]);
            }
        } else {
            assert(v1[i] == v0[i - 1]);
            assert(v1[j] == v0[j - 1]);
        }
    }
    assert forall|y: Seq<char>| v1.contains(y) <==> (v0.contains(y) || y == x@) by {
        if v1.contains(y) {
            let k = choose|k: int| 0 <= k < v1.len() && v1[k] == y;
            if k < p {
                assert(v0[k] == y);
            } else if k > p {
                assert(v0[k - 1] == y);
            }
        }
        if v0.contains(y) {
            let k = choose|k: int| 0 <= k < v0.len() && v0[k] == y;
            if k < p {
                assert(v1[k] == y);
            } else {
                assert(v1[k + 1] == y);
            }
        }
        if y == x@ {
            assert(v1[p as int] == y);
        }
    }
}

/// Adds every string of `tags` to a strictly ascending list, keeping it
/// strictly ascending and free of repeats.
pub fn insert_all_sorted(out: &mut Vec<String>, tags: &Vec<String>)
    requires
        ascending(old(out).deep_view()),
    ensures
        ascending(final(out).deep_view()),
        forall|y: Seq<char>| #[trigger] final(out).deep_view().contains(y) <==> (old(out).deep_view().contains(y) || tags.deep_view().contains(y)),
{
    let ghost mid = out.deep_view();
    assert(tags.deep_view().take(0) =~= Seq::<Seq<char>>::empty());
    let mut k: usize = 0;
    while k < tags.len()
        invariant
            0 <= k <= tags.len(),
            ascending(out.deep_view()),
            forall|y: Seq<char>| out.deep_view().contains(y) <==> (mid.contains(y) || tags.deep_view().take(k as int).contains(y)),
        decreases tags.len() - k,
    {
        let ghost o1 = out.deep_view();
        assert(forall|y: Seq<char>| o1.contains(y) <==> (mid.contains(y) || tags.deep_view().take(k as int).contains(y)));
        insert_sorted_unique(out, tags[k].as_str());
        let ghost xv = tags.deep_view()[k as int];
        assert(tags[k as int]@ == xv);
        assert(forall|y: Seq<char>| out.deep_view().contains(y) <==> (o1.contains(y) || y == xv));
        assert forall|y: Seq<char>| out.deep_view().contains(y) <==> (mid.contains(y) || tags.deep_view().take(k + 1).contains(y)) by {
            lemma_take_contains(tags.deep_view(), k as int, y);
        }
        k += 1;
    }
    assert(tags.deep_view().take(k as int) =~= tags.deep_view());
    assert forall|y: Seq<char>| #[trigger] out.deep_view().contains(y) <==> (mid.contains(y) || tags.deep_view().contains(y)) by {
        assert(out.deep_view().contains(y) <==> (mid.contains(y) || tags.deep_view().take(k as int).contains(y)));
    }
}

/// `a < b` on strings.
pub fn str_lt(a: &str, b: &str) -> (r: bool)
    ensures
        r == text_lt(a@, b@),
{
    chars_lt(&to_chars(a), &to_chars(b))
}

/// Inserts `x` into `s` before the first element it sorts strictly before.
pub open spec fn ins_sorted<V>(s: Seq<V>, x: V, lt: spec_fn(V, V) -> bool) -> Seq<V>
    decreases s.len(),
{
    if s.len() == 0 {
        seq![x]
    } else if lt(x, s[0]) {
        seq![x] + s
    } else {
        seq![s[0]] + ins_sorted(s.drop_first(), x, lt)
    }
}

/// What a stable sort (`slice::sort_by`) leaves: elements inserted in order,
/// each after every element it does not sort strictly before.
pub open spec fn stable_sort<V>(s: Seq<V>, lt: spec_fn(V, V) -> bool) -> Seq<V>
    decreases s.len(),
{
    if s.len() == 0 {
        Seq::empty()
    } else {
        ins_sorted(stable_sort(s.drop_last(), lt), s.last(), lt)
    }
}

pub proof fn lemma_ins_at<V>(s: Seq<V>, x: V, lt: spec_fn(V, V) -> bool, p: int)
    requires
        0 <= p <= s.len(),
        forall|j: int| 0 <= j < p ==> !lt(x, s[j]),
        p < s.len() ==> lt(x, s[p]),
    ensures
        ins_sorted(s, x, lt) == s.take(p) + seq![x] + s.skip(p),
    decreases s.len(),
{
    if s.len() == 0 {
        assert(s.take(p) + seq![x] + s.skip(p) =~= seq![x]);
    } else if p == 0 {
        assert(s.take(p) + seq![x] + s.skip(p) =~= seq![x] + s);
    } else {
        let t = s.drop_first();
        assert forall|j: int| 0 <= j < p - 1 implies !lt(x, t[j]) by {
            assert(t[j] == s[j + 1]);
        }
        lemma_ins_at(t, x, lt, p - 1);
        assert(s.take(p) + seq![x] + s.skip(p) =~= seq![s[0]] + (t.take(p - 1) + seq![x] + t.skip(
            p - 1,
        )));
    }
}

/// Ordering used to sort values of a type, selected by `mode`.
pub trait SortKey: View + Sized {
    spec fn before(a: Self::V, b: Self::V, mode: u8) -> bool;

    fn before_exec(a: &Self, b: &Self, mode: u8) -> (r: bool)
        ensures
            r == Self::before(a@, b@, mode),
    ;
}

pub open spec fn views<T: View>(s: Seq<T>) -> Seq<T::V> {
    s.map_values(|x: T| x@)
}

/// The elements of `s` that satisfy `p`, in order.
pub open spec fn keep<V>(s: Seq<V>, p: spec_fn(V) -> bool) -> Seq<V>
    decreases s.len(),
{
    if s.len() == 0 {
        s
    } else if p(s.last()) {
        keep(s.drop_last(), p).push(s.last())
    } else {
        keep(s.drop_last(), p)
    }
}

/// How many elements of `s` satisfy `p`.
pub open spec fn count_where<V>(s: Seq<V>, p: spec_fn(V) -> bool) -> nat
    decreases s.len(),
{
    if s.len() == 0 {
        0
    } else if p(s.last()) {
        count_where(s.drop_last(), p) + 1
    } else {
        count_where(s.drop_last(), p)
    }
}

pub proof fn lemma_keep_step<V>(s: Seq<V>, i: int, p: spec_fn(V) -> bool)
    requires
        0 <= i < s.len(),
    ensures
        keep(s.take(i + 1), p) == if p(s[i]) {
            keep(s.take(i), p).push(s[i])
        } else {
            keep(s.take(i), p)
        },
        count_where(s.take(i + 1), p) == if p(s[i]) {
            count_where(s.take(i), p) + 1
        } else {
            count_where(s.take(i), p)
        },
{
    assert(s.take(i + 1).drop_last() =~= s.take(i));
    assert(s.take(i + 1).last() == s[i]);
}

pub proof fn lemma_keep_all<V>(s: Seq<V>, p: spec_fn(V) -> bool)
    ensures
        keep(s.take(s.len() as int), p) == keep(s, p),
        count_where(s.take(s.len() as int), p) == count_where(s, p),
{
    assert(s.take(s.len() as int) =~= s);
}

pub proof fn lemma_count_le<V>(s: Seq<V>, p: spec_fn(V) -> bool)
    ensures
        count_where(s, p) <= s.len(),
        keep(s, p).len() == count_where(s, p),
    decreases s.len(),
{
    if s.len() > 0 {
        lemma_count_le(s.drop_last(), p);
    }
}

/// Everything `keep` leaves satisfies `p` and came from `s`.
pub proof fn lemma_keep_members<V>(s: Seq<V>, p: spec_fn(V) -> bool)
    ensures
        forall|j: int| 0 <= j < keep(s, p).len() ==> p(#[trigger] keep(s, p)[j]) && s.contains(keep(s, p)[j]),
        forall|j: int| 0 <= j < s.len() && p(#[trigger] s[j]) ==> keep(s, p).contains(s[j]),
    decreases s.len(),
{
    if s.len() > 0 {
        let d = s.drop_last();
        lemma_keep_members(d, p);
        assert forall|j: int| 0 <= j < keep(s, p).len() implies p(#[trigger] keep(s, p)[j]) && s.contains(keep(s, p)[j]) by {
            if j < keep(d, p).len() {
                let x = keep(d, p)[j];
                assert(keep(s, p)[j] == x);
                let k = choose|k: int| 0 <= k < d.len() && d[k] == x;
                assert(s[k] == x);
            } else {
                assert(keep(s, p)[j] == s.last());
                assert(s[s.len() - 1] == s.last());
            }
        }
        assert forall|j: int| 0 <= j < s.len() && p(#[trigger] s[j]) implies keep(s, p).contains(s[j]) by {
            if j < s.len() - 1 {
                assert(d[j] == s[j]);
                let k = choose|k: int| 0 <= k < keep(d, p).len() && keep(d, p)[k] == s[j];
                assert(keep(s, p)[k] == s[j]);
            } else {
                assert(keep(s, p).last() == s[j]);
                assert(keep(s, p)[keep(s, p).len() - 1] == s[j]);
            }
        }
    }
}

pub open spec fn before_fn<T: SortKey>(mode: u8) -> spec_fn(T::V, T::V) -> bool {
    |a: T::V, b: T::V| T::before(a, b, mode)
}

/// Stable insertion sort.
pub fn sort_stable<T: SortKey>(v: Vec<T>, mode: u8) -> (r: Vec<T>)
    ensures
        views(r@) == stable_sort(views(v@), before_fn::<T>(mode)),
{
    let ghost orig = views(v@);
    let ghost lt = before_fn::<T>(mode);
    let mut v = v;
    let mut out: Vec<T> = Vec::new();
    let ghost n = v.len();
    while v.len() > 0
        invariant
            orig.len() == n,
            v.len() <= n,
            views(v@) == orig.skip(n - v.len()),
            views(out@) == stable_sort(orig.take(n - v.len()), lt),
            lt == before_fn::<T>(mode),
        decreases v.len(),
    {
        let ghost k = n - v.len();
        let ghost old_v = v@;
        let x = v.remove(0);
        assert(v@ == old_v.remove(0));
        assert forall|j: int| 0 <= j < v@.len() implies views(v@)[j] == orig.skip(k + 1)[j] by {
            assert(v@[j] == old_v[j + 1]);
            assert(views(old_v)[j + 1] == orig.skip(k)[j + 1]);
        }
        assert(views(v@) =~= orig.skip(k + 1));
        assert(orig.skip(k)[0] == x@);
        let mut p: usize = 0;
        while p < out.len() && !T::before_exec(&x, &out[p], mode)
            invariant
                0 <= p <= out.len(),
                forall|j: int| 0 <= j < p ==> !lt(x@, views(out@)[j]),
                lt == before_fn::<T>(mode),
            decreases out.len() - p,
        {
            p += 1;
        }
        proof {
            assert(orig.take(k + 1).drop_last() =~= orig.take(k));
            assert(orig.take(k + 1).last() == x@);
            lemma_ins_at(views(out@), x@, lt, p as int);
        }
        let ghost before = views(out@);
        out.insert(p, x);
        assert(views(out@) =~= before.take(p as int) + seq![x@] + before.skip(p as int));
    }
    assert(orig.take(n as int) =~= orig);
    out
}

} // verus!
