//! Character-level text helpers with specifications over `Seq<char>`.
use vstd::prelude::*;

verus! {

/// The characters of `s`, in order.
pub fn to_chars(s: &str) -> (v: Vec<char>)
    ensures
        v@ == s@,
{
    let mut v: Vec<char> = Vec::new();
    for c in it: s.chars()
        invariant
            v@ == it.history(),
    {
        v.push(c);
    }
    v
}

/// Appends one character to a string (`String::push`).
#[verifier::external_body]
fn push_char(s: &mut String, c: char)
    ensures
        final(s)@ == old(s)@.push(c),
{
    s.push(c);
}

/// A string holding exactly the characters of `v`.
pub fn from_chars(v: &Vec<char>) -> (s: String)
    ensures
        s@ == v@,
{
    let mut s = String::new();
    for i in 0..v.len()
        invariant
            s@ == v@.take(i as int),
    {
        push_char(&mut s, v[i]);
        assert(v@.take(i + 1) == v@.take(i as int).push(v@[i as int]));
    }
    assert(v@.take(v.len() as int) == v@);
    s
}

/// Copies a string (`String::clone`, which vstd specifies).
pub fn dup(s: &String) -> (r: String)
    ensures
        r@ == s@,
{
    s.clone()
}

/// Copies a list of strings element by element.
pub fn dup_all(v: &Vec<String>) -> (r: Vec<String>)
    ensures
        r.deep_view() == v.deep_view(),
{
    let mut r: Vec<String> = Vec::new();
    for i in 0..v.len()
        invariant
            r.deep_view() == v.deep_view().take(i as int),
    {
        let ghost before = r.deep_view();
        let c = v[i].clone();
        assert(c@ == v@[i as int]@);
        r.push(c);
        assert(r.deep_view() =~= before.push(c@));
        assert(r.deep_view() =~= v.deep_view().take(i + 1));
    }
    assert(v.deep_view().take(v.len() as int) =~= v.deep_view());
    r
}

/// `char::is_whitespace`: the Unicode White_Space property.
pub open spec fn is_ws(c: char) -> bool {
    ||| ('\u{9}' <= c && c <= '\u{d}')
    ||| c == ' '
    ||| c == '\u{85}'
    ||| c == '\u{a0}'
    ||| c == '\u{1680}'
    ||| ('\u{2000}' <= c && c <= '\u{200a}')
    ||| c == '\u{2028}'
    ||| c == '\u{2029}'
    ||| c == '\u{202f}'
    ||| c == '\u{205f}'
    ||| c == '\u{3000}'
}

/// Executable White_Space test.
pub fn char_is_ws(c: char) -> (b: bool)
    ensures
        b == is_ws(c),
{
    ('\u{9}' <= c && c <= '\u{d}') || c == ' ' || c == '\u{85}' || c == '\u{a0}' || c == '\u{1680}'
        || ('\u{2000}' <= c && c <= '\u{200a}') || c == '\u{2028}' || c == '\u{2029}' || c
        == '\u{202f}' || c == '\u{205f}' || c == '\u{3000}'
}

/// What `str::to_lowercase` returns for a string with the given characters
/// (Unicode lowercase mapping, which depends on the whole string).
pub uninterp spec fn lower(s: Seq<char>) -> Seq<char>;

/// Whether every character is ASCII.
pub open spec fn all_ascii(s: Seq<char>) -> bool {
    forall|i: int| 0 <= i < s.len() ==> (#[trigger] s[i] as u32) < 128
}

/// ASCII case mapping of one character: 'A'..='Z' to 'a'..='z', others kept.
pub open spec fn ascii_lower(c: char) -> char {
    if 'A' <= c && c <= 'Z' { ((c as u32) + 32) as char } else { c }
}

/// ASCII case mapping of one character: 'a'..='z' to 'A'..='Z', others kept.
pub open spec fn ascii_upper(c: char) -> char {
    if 'a' <= c && c <= 'z' { ((c as u32) - 32) as char } else { c }
}

/// `str::to_lowercase`. Its result is the name `lower`; on ASCII text it is
/// the ASCII mapping, as std documents (`to_ascii_lowercase` maps 'A' to 'Z'
/// and leaves the rest, and `to_lowercase` lowercases ASCII characters in
/// addition to non-ASCII ones). Beyond ASCII nothing is stated.
#[verifier::external_body]
pub(crate) fn to_lower(s: &str) -> (r: String)
    ensures
        r@ == lower(s@),
        all_ascii(s@) ==> r@ == s@.map_values(|c: char| ascii_lower(c)),
{
    s.to_lowercase()
}

/// `str::to_uppercase`'s result, named for the same reason as `lower`.
pub uninterp spec fn upper(s: Seq<char>) -> Seq<char>;

/// `str::to_uppercase`. Its result is the name `upper`; on ASCII text it is
/// the ASCII mapping, as for `to_lower`. Beyond ASCII nothing is stated.
#[verifier::external_body]
pub(crate) fn to_upper(s: &str) -> (r: String)
    ensures
        r@ == upper(s@),
        all_ascii(s@) ==> r@ == s@.map_values(|c: char| ascii_upper(c)),
{
    s.to_uppercase()
}

// ---------------------------------------------------------------- splitting
/// `s.split(c)`: the pieces between occurrences of `c` (always at least one).
pub open spec fn split_on(s: Seq<char>, c: char) -> Seq<Seq<char>>
    decreases s.len(),
{
    if s.len() == 0 {
        seq![Seq::<char>::empty()]
    } else {
        let r = split_on(s.drop_last(), c);
        if s.last() == c {
            r.push(Seq::<char>::empty())
        } else {
            r.update(r.len() - 1, r.last().push(s.last()))
        }
    }
}

pub proof fn lemma_split_nonempty(s: Seq<char>, c: char)
    ensures
        split_on(s, c).len() >= 1,
    decreases s.len(),
{
    if s.len() > 0 {
        lemma_split_nonempty(s.drop_last(), c);
    }
}

pub proof fn lemma_split_len(s: Seq<char>, c: char)
    ensures
        split_on(s, c).len() <= s.len() + 1,
    decreases s.len(),
{
    if s.len() > 0 {
        lemma_split_len(s.drop_last(), c);
        lemma_split_nonempty(s.drop_last(), c);
    }
}

/// `parts.join(sep)`.
pub open spec fn join_with(parts: Seq<Seq<char>>, sep: Seq<char>) -> Seq<char>
    decreases parts.len(),
{
    if parts.len() == 0 {
        Seq::empty()
    } else if parts.len() == 1 {
        parts[0]
    } else {
        join_with(parts.drop_last(), sep) + sep + parts.last()
    }
}

/// Splitting on a character and joining with it gives back the text.
pub proof fn lemma_join_split(s: Seq<char>, c: char)
    ensures
        join_with(split_on(s, c), seq![c]) == s,
    decreases s.len(),
{
    if s.len() > 0 {
        let p = s.drop_last();
        lemma_join_split(p, c);
        lemma_split_nonempty(p, c);
        let r = split_on(p, c);
        if s.last() == c {
            assert(r.push(Seq::<char>::empty()).drop_last() == r);
            assert(s == p + seq![c] + Seq::<char>::empty());
        } else {
            let r2 = r.update(r.len() - 1, r.last().push(s.last()));
            if r.len() == 1 {
                assert(s == p.push(s.last()));
            } else {
                assert(r2.drop_last() == r.drop_last());
                assert(join_with(r, seq![c]) == join_with(r.drop_last(), seq![c]) + seq![c]
                    + r.last());
                assert(s == p.push(s.last()));
            }
        }
    }
}

/// The character does not occur in the text.
pub open spec fn lacks(s: Seq<char>, c: char) -> bool {
    forall|k: int| 0 <= k < s.len() ==> s[k] != c
}

/// Text without the separator splits into itself alone.
pub proof fn lemma_split_single(s: Seq<char>, c: char)
    requires
        lacks(s, c),
    ensures
        split_on(s, c) == seq![s],
    decreases s.len(),
{
    if s.len() == 0 {
        assert(s =~= Seq::<char>::empty());
    } else {
        let p = s.drop_last();
        assert forall|k: int| 0 <= k < p.len() implies p[k] != c by {
            assert(p[k] == s[k]);
        }
        lemma_split_single(p, c);
        assert(s.last() == s[s.len() - 1]);
        assert(p.push(s.last()) =~= s);
        assert(seq![p].update(0, p.push(s.last())) =~= seq![s]);
    }
}

/// Splitting `a`, the separator, then separator-free `b` adds `b` as the
/// last piece.
pub proof fn lemma_split_append(a: Seq<char>, b: Seq<char>, c: char)
    requires
        lacks(b, c),
    ensures
        split_on(a + seq![c] + b, c) == split_on(a, c).push(b),
    decreases b.len(),
{
    if b.len() == 0 {
        assert((a + seq![c] + b).drop_last() =~= a);
        assert(b =~= Seq::<char>::empty());
    } else {
        let s = a + seq![c] + b;
        let b0 = b.drop_last();
        assert forall|k: int| 0 <= k < b0.len() implies b0[k] != c by {
            assert(b0[k] == b[k]);
        }
        lemma_split_append(a, b0, c);
        assert(b.last() == b[b.len() - 1]);
        assert(b0.push(b.last()) =~= b);
        assert(s.drop_last() =~= a + seq![c] + b0);
        assert(s.last() == b.last());
        let r = split_on(a, c).push(b0);
        assert(r.update(r.len() - 1, r.last().push(b.last())) =~= split_on(a, c).push(b));
    }
}

/// Joining separator-free pieces and splitting again gives the pieces.
pub proof fn lemma_split_join(parts: Seq<Seq<char>>, c: char)
    requires
        parts.len() >= 1,
        forall|i: int| 0 <= i < parts.len() ==> lacks(#[trigger] parts[i], c),
    ensures
        split_on(join_with(parts, seq![c]), c) == parts,
    decreases parts.len(),
{
    if parts.len() == 1 {
        lemma_split_single(parts[0], c);
        assert(seq![parts[0]] =~= parts);
    } else {
        let init = parts.drop_last();
        lemma_split_join(init, c);
        assert(lacks(parts.last(), c));
        lemma_split_append(join_with(init, seq![c]), parts.last(), c);
        assert(init.push(parts.last()) =~= parts);
    }
}

/// Each piece after the first, with a space in front.
pub open spec fn spaced(parts: Seq<Seq<char>>) -> Seq<Seq<char>> {
    Seq::new(parts.len(), |i: int| if i == 0 { parts[0] } else { seq![' '] + parts[i] })
}

/// Joining with ", " is joining with "," the pieces after the first led by a
/// space.
pub proof fn lemma_join_comma_space(parts: Seq<Seq<char>>)
    ensures
        join_with(parts, seq![',', ' ']) == join_with(spaced(parts), seq![',']),
    decreases parts.len(),
{
    if parts.len() >= 2 {
        let init = parts.drop_last();
        lemma_join_comma_space(init);
        assert(spaced(parts).drop_last() =~= spaced(init));
        assert(spaced(parts).last() == seq![' '] + parts.last());
        assert(join_with(init, seq![',', ' ']) + seq![',', ' '] + parts.last() =~= join_with(spaced(init), seq![','])
            + seq![','] + (seq![' '] + parts.last()));
    }
}

/// A newline in a join of newline-free, non-empty lines is followed by the
/// first character of the next line.
pub proof fn lemma_join_newline_next(parts: Seq<Seq<char>>, j: int)
    requires
        parts.len() >= 1,
        forall|i: int| 0 <= i < parts.len() ==> lacks(#[trigger] parts[i], '\n') && parts[i].len() > 0,
        0 <= j < join_with(parts, seq!['\n']).len(),
        join_with(parts, seq!['\n'])[j] == '\n',
    ensures
        j + 1 < join_with(parts, seq!['\n']).len(),
        exists|i: int| 0 < i < parts.len() && #[trigger] parts[i][0] == join_with(parts, seq!['\n'])[j + 1],
    decreases parts.len(),
{
    let sep = seq!['\n'];
    if parts.len() == 1 {
        assert(lacks(parts[0], '\n'));
        assert(false);
    } else {
        let init = parts.drop_last();
        let ji = join_with(init, sep);
        let last = parts.last();
        assert(lacks(last, '\n'));
        assert(join_with(parts, sep) == ji + sep + last);
        if j < ji.len() {
            assert(join_with(parts, sep)[j] == ji[j]);
            lemma_join_newline_next(init, j);
            let i = choose|i: int| 0 < i < init.len() && #[trigger] init[i][0] == ji[j + 1];
            assert(join_with(parts, sep)[j + 1] == ji[j + 1]);
            assert(parts[i] == init[i]);
        } else if j == ji.len() {
            assert(join_with(parts, sep)[j + 1] == last[0]);
            assert(parts[parts.len() - 1] == last);
        } else {
            assert(join_with(parts, sep)[j] == last[j - ji.len() - 1]);
            assert(false);
        }
    }
}

/// `s.split(c)` as owned character vectors.
pub fn split_chars(s: &Vec<char>, c: char) -> (r: Vec<Vec<char>>)
    ensures
        r.deep_view() == split_on(s@, c),
{
    let mut out: Vec<Vec<char>> = Vec::new();
    let mut cur: Vec<char> = Vec::new();
    for i in 0..s.len()
        invariant
            out.deep_view().push(cur@) == split_on(s@.take(i as int), c),
    {
        proof {
            let t = s@.take(i + 1);
            assert(t.drop_last() == s@.take(i as int));
            assert(t.last() == s@[i as int]);
        }
        if s[i] == c {
            let ghost before = out.deep_view();
            let done = cur;
            assert(done.deep_view() =~= done@);
            out.push(done);
            cur = Vec::new();
            assert(out.deep_view() =~= before.push(done@));
            assert(out.deep_view().push(cur@) =~= split_on(s@.take(i + 1), c));
        } else {
            let ghost before = out.deep_view().push(cur@);
            cur.push(s[i]);
            assert(out.deep_view().push(cur@) =~= before.update(before.len() - 1, before.last().push(
                s@[i as int],
            )));
        }
    }
    let ghost before = out.deep_view();
    assert(cur.deep_view() =~= cur@);
    out.push(cur);
    assert(out.deep_view() =~= before.push(cur@));
    assert(s@.take(s.len() as int) == s@);
    assert(out.deep_view() =~= split_on(s@, c));
    out
}

/// `parts.join(sep)` for character vectors.
pub fn join_chars(parts: &Vec<Vec<char>>, sep: &Vec<char>) -> (r: Vec<char>)
    ensures
        r@ == join_with(parts.deep_view(), sep@),
{
    let mut out: Vec<char> = Vec::new();
    for i in 0..parts.len()
        invariant
            out@ == join_with(parts.deep_view().take(i as int), sep@),
    {
        let ghost pre = parts.deep_view().take(i as int);
        let ghost nxt = parts.deep_view().take(i + 1);
        assert(nxt.drop_last() == pre);
        if i > 0 {
            let mut k: usize = 0;
            while k < sep.len()
                invariant
                    0 <= k <= sep.len(),
                    out@ == join_with(pre, sep@) + sep@.take(k as int),
                decreases sep.len() - k,
            {
                out.push(sep[k]);
                assert(sep@.take(k + 1) == sep@.take(k as int).push(sep@[k as int]));
                k += 1;
            }
            assert(sep@.take(sep.len() as int) == sep@);
        }
        let ghost mid = out@;
        let p = &parts[i];
        let mut k: usize = 0;
        while k < p.len()
            invariant
                0 <= k <= p.len(),
                out@ == mid + p@.take(k as int),
            decreases p.len() - k,
        {
            out.push(p[k]);
            assert(p@.take(k + 1) == p@.take(k as int).push(p@[k as int]));
            k += 1;
        }
        assert(p@.take(p.len() as int) == p@);
        assert(nxt.last() == p@);
        if i == 0 {
            assert(out@ =~= join_with(nxt, sep@));
        } else {
            assert(out@ =~= join_with(nxt, sep@));
        }
    }
    assert(parts.deep_view().take(parts.len() as int) =~= parts.deep_view());
    out
}

// ---------------------------------------------------------------- searching
/// `needle` occurs in `hay` starting at `i`.
pub open spec fn occurs_at(hay: Seq<char>, needle: Seq<char>, i: int) -> bool {
    0 <= i && i + needle.len() <= hay.len() && hay.subrange(i, i + needle.len()) == needle
}

/// `hay.contains(needle)`.
pub open spec fn contains_seq(hay: Seq<char>, needle: Seq<char>) -> bool {
    exists|i: int| occurs_at(hay, needle, i)
}

/// The first position at or after `from` where `needle` occurs.
pub open spec fn find_from(hay: Seq<char>, needle: Seq<char>, from: int) -> Option<int>
    decreases hay.len() + 1 - from,
{
    if from < 0 || from + needle.len() > hay.len() {
        None
    } else if occurs_at(hay, needle, from) {
        Some(from)
    } else {
        find_from(hay, needle, from + 1)
    }
}

/// `hay.find(needle)`.
pub open spec fn find_seq(hay: Seq<char>, needle: Seq<char>) -> Option<int> {
    find_from(hay, needle, 0)
}

pub proof fn lemma_find_from(hay: Seq<char>, needle: Seq<char>, from: int)
    requires
        0 <= from,
    ensures
        find_from(hay, needle, from) matches Some(i) ==> from <= i && occurs_at(hay, needle, i)
            && forall|j: int| from <= j < i ==> !occurs_at(hay, needle, j),
        find_from(hay, needle, from) is None ==> forall|j: int|
            from <= j ==> !occurs_at(hay, needle, j),
    decreases hay.len() + 1 - from,
{
    if from + needle.len() > hay.len() {
    } else if occurs_at(hay, needle, from) {
    } else {
        if needle.len() == 0 {
            assert(hay.subrange(from, from) =~= needle);
        }
        lemma_find_from(hay, needle, from + 1);
    }
}

/// The first occurrence is what the search finds.
pub proof fn lemma_find_first(hay: Seq<char>, needle: Seq<char>, from: int, i: int)
    requires
        0 <= from <= i,
        occurs_at(hay, needle, i),
        forall|j: int| from <= j < i ==> !occurs_at(hay, needle, j),
    ensures
        find_from(hay, needle, from) == Some(i),
    decreases i - from,
{
    if from < i {
        lemma_find_first(hay, needle, from + 1, i);
    }
}

pub proof fn lemma_find_contains(hay: Seq<char>, needle: Seq<char>)
    ensures
        find_seq(hay, needle) is Some <==> contains_seq(hay, needle),
{
    lemma_find_from(hay, needle, 0);
}

/// Does `needle` occur at position `i` of `hay`?
pub fn occurs_at_exec(hay: &Vec<char>, needle: &Vec<char>, i: usize) -> (b: bool)
    ensures
        b == occurs_at(hay@, needle@, i as int),
{
    if i > hay.len() || needle.len() > hay.len() - i {
        return false;
    }
    let mut k: usize = 0;
    while k < needle.len()
        invariant
            i + needle.len() <= hay.len(),
            0 <= k <= needle.len(),
            forall|j: int| 0 <= j < k ==> hay@[i + j] == needle@[j],
        decreases needle.len() - k,
    {
        if hay[i + k] != needle[k] {
            assert(hay@.subrange(i as int, i + needle.len())[k as int] != needle@[k as int]);
            return false;
        }
        k += 1;
    }
    assert(hay@.subrange(i as int, i + needle.len()) =~= needle@);
    true
}

/// `hay.find(needle)`, as a character index.
pub fn find_chars(hay: &Vec<char>, needle: &Vec<char>) -> (r: Option<usize>)
    ensures
        r matches Some(i) ==> find_seq(hay@, needle@) == Some(i as int),
        r is None ==> find_seq(hay@, needle@) is None,
{
    if needle.len() > hay.len() {
        return None;
    }
    let last: usize = hay.len() - needle.len();
    let mut i: usize = 0;
    while i <= last
        invariant
            last == hay.len() - needle.len(),
            0 <= i <= last + 1,
            find_seq(hay@, needle@) == find_from(hay@, needle@, i as int),
        decreases last + 1 - i,
    {
        if occurs_at_exec(hay, needle, i) {
            return Some(i);
        }
        if i == last {
            proof {
                lemma_find_from(hay@, needle@, i + 1);
            }
            return None;
        }
        i += 1;
    }
    None
}

/// `hay.contains(needle)`.
pub fn contains_chars(hay: &Vec<char>, needle: &Vec<char>) -> (b: bool)
    ensures
        b == contains_seq(hay@, needle@),
{
    proof {
        lemma_find_contains(hay@, needle@);
    }
    find_chars(hay, needle).is_some()
}

/// `hay.starts_with(p)`.
pub open spec fn starts_with(hay: Seq<char>, p: Seq<char>) -> bool {
    p.len() <= hay.len() && hay.take(p.len() as int) == p
}

pub fn starts_with_chars(hay: &Vec<char>, p: &Vec<char>) -> (b: bool)
    ensures
        b == starts_with(hay@, p@),
{
    let b = occurs_at_exec(hay, p, 0);
    assert(b == starts_with(hay@, p@)) by {
        assert(hay@.subrange(0, p@.len() as int) == hay@.take(p@.len() as int));
    }
    b
}

/// `hay.ends_with(p)`.
pub open spec fn ends_with(hay: Seq<char>, p: Seq<char>) -> bool {
    p.len() <= hay.len() && hay.skip(hay.len() - p.len()) == p
}

pub fn ends_with_chars(hay: &Vec<char>, p: &Vec<char>) -> (b: bool)
    ensures
        b == ends_with(hay@, p@),
{
    if p.len() > hay.len() {
        return false;
    }
    let b = occurs_at_exec(hay, p, hay.len() - p.len());
    assert(b == ends_with(hay@, p@)) by {
        assert(hay@.subrange(hay.len() - p.len(), hay.len() as int) == hay@.skip(
            hay.len() - p.len(),
        ));
    }
    b
}

/// `v[from..to]`.
pub fn slice_chars(v: &Vec<char>, from: usize, to: usize) -> (r: Vec<char>)
    requires
        from <= to <= v.len(),
    ensures
        r@ == v@.subrange(from as int, to as int),
{
    let mut r: Vec<char> = Vec::new();
    let mut k: usize = from;
    while k < to
        invariant
            from <= k <= to <= v.len(),
            r@ == v@.subrange(from as int, k as int),
        decreases to - k,
    {
        r.push(v[k]);
        assert(v@.subrange(from as int, k + 1) == v@.subrange(from as int, k as int).push(
            v@[k as int],
        ));
        k += 1;
    }
    r
}

/// `v[from..]`.
pub fn skip_chars(v: &Vec<char>, from: usize) -> (r: Vec<char>)
    requires
        from <= v.len(),
    ensures
        r@ == v@.skip(from as int),
{
    let r = slice_chars(v, from, v.len());
    assert(r@ =~= v@.skip(from as int));
    r
}

/// `a + b` for character vectors.
pub fn concat_chars(a: &Vec<char>, b: &Vec<char>) -> (r: Vec<char>)
    ensures
        r@ == a@ + b@,
{
    let mut r = slice_chars(a, 0, a.len());
    let mut k: usize = 0;
    while k < b.len()
        invariant
            0 <= k <= b.len(),
            r@ == a@ + b@.take(k as int),
        decreases b.len() - k,
    {
        r.push(b[k]);
        assert(b@.take(k + 1) == b@.take(k as int).push(b@[k as int]));
        k += 1;
    }
    assert(a@.subrange(0, a@.len() as int) == a@);
    assert(b@.take(b.len() as int) == b@);
    r
}

// ---------------------------------------------------------------- trimming
/// Number of leading characters that satisfy `p`.
pub open spec fn lead_len(s: Seq<char>, p: spec_fn(char) -> bool) -> nat
    decreases s.len(),
{
    if s.len() > 0 && p(s[0]) {
        1 + lead_len(s.drop_first(), p)
    } else {
        0
    }
}

/// Number of trailing characters that satisfy `p`.
pub open spec fn trail_len(s: Seq<char>, p: spec_fn(char) -> bool) -> nat
    decreases s.len(),
{
    if s.len() > 0 && p(s.last()) {
        1 + trail_len(s.drop_last(), p)
    } else {
        0
    }
}

pub open spec fn trim_start_by(s: Seq<char>, p: spec_fn(char) -> bool) -> Seq<char> {
    s.skip(lead_len(s, p) as int)
}

pub open spec fn trim_end_by(s: Seq<char>, p: spec_fn(char) -> bool) -> Seq<char> {
    s.take(s.len() - trail_len(s, p))
}

/// `str::trim`: no leading or trailing whitespace.
pub open spec fn trim(s: Seq<char>) -> Seq<char> {
    trim_end_by(trim_start_by(s, |c: char| is_ws(c)), |c: char| is_ws(c))
}

pub proof fn lemma_lead_len(s: Seq<char>, p: spec_fn(char) -> bool)
    ensures
        lead_len(s, p) <= s.len(),
        forall|j: int| 0 <= j < lead_len(s, p) ==> p(s[j]),
        lead_len(s, p) < s.len() ==> !p(s[lead_len(s, p) as int]),
    decreases s.len(),
{
    if s.len() > 0 && p(s[0]) {
        lemma_lead_len(s.drop_first(), p);
        assert forall|j: int| 0 <= j < lead_len(s, p) implies p(s[j]) by {
            if j > 0 {
                assert(s[j] == s.drop_first()[j - 1]);
            }
        }
    }
}

pub proof fn lemma_trail_len(s: Seq<char>, p: spec_fn(char) -> bool)
    ensures
        trail_len(s, p) <= s.len(),
        forall|j: int| s.len() - trail_len(s, p) <= j < s.len() ==> p(s[j]),
        trail_len(s, p) < s.len() ==> !p(s[s.len() - trail_len(s, p) - 1]),
    decreases s.len(),
{
    if s.len() > 0 && p(s.last()) {
        let t = s.drop_last();
        lemma_trail_len(t, p);
        assert forall|j: int| s.len() - trail_len(s, p) <= j < s.len() implies p(s[j]) by {
            if j < s.len() - 1 {
                assert(s[j] == t[j]);
            }
        }
        if trail_len(s, p) < s.len() {
            assert(s[s.len() - trail_len(s, p) - 1] == t[t.len() - trail_len(t, p) - 1]);
        }
    }
}

/// Characterizes `lead_len` by the index where the run of `p` stops.
pub proof fn lemma_lead_len_is(s: Seq<char>, p: spec_fn(char) -> bool, n: int)
    requires
        0 <= n <= s.len(),
        forall|j: int| 0 <= j < n ==> p(s[j]),
        n < s.len() ==> !p(s[n]),
    ensures
        lead_len(s, p) == n,
    decreases s.len(),
{
    if n > 0 {
        assert(p(s[0]));
        lemma_lead_len_is(s.drop_first(), p, n - 1);
    }
}

pub proof fn lemma_trail_len_is(s: Seq<char>, p: spec_fn(char) -> bool, n: int)
    requires
        0 <= n <= s.len(),
        forall|j: int| s.len() - n <= j < s.len() ==> p(s[j]),
        n < s.len() ==> !p(s[s.len() - n - 1]),
    ensures
        trail_len(s, p) == n,
    decreases s.len(),
{
    if n > 0 {
        assert(p(s.last()));
        lemma_trail_len_is(s.drop_last(), p, n - 1);
    }
}

/// `s.trim()`.
pub fn trim_chars(s: &Vec<char>) -> (r: Vec<char>)
    ensures
        r@ == trim(s@),
{
    let ghost p = |c: char| is_ws(c);
    let mut a: usize = 0;
    while a < s.len() && char_is_ws(s[a])
        invariant
            0 <= a <= s.len(),
            forall|j: int| 0 <= j < a ==> is_ws(s@[j]),
        decreases s.len() - a,
    {
        a += 1;
    }
    proof {
        lemma_lead_len_is(s@, p, a as int);
    }
    let mut b: usize = s.len();
    while b > a && char_is_ws(s[b - 1])
        invariant
            a <= b <= s.len(),
            forall|j: int| b <= j < s.len() ==> is_ws(s@[j]),
        decreases b,
    {
        b -= 1;
    }
    let ghost t = s@.skip(a as int);
    proof {
        lemma_trail_len_is(t, p, (s.len() - b) as int);
        assert(t.take(t.len() - (s.len() - b)) =~= s@.subrange(a as int, b as int));
    }
    slice_chars(s, a, b)
}

/// Removes every leading occurrence of `c`.
pub fn trim_start_char(s: &Vec<char>, c: char) -> (r: Vec<char>)
    ensures
        r@ == trim_start_by(s@, |x: char| x == c),
{
    let ghost p = |x: char| x == c;
    let mut a: usize = 0;
    while a < s.len() && s[a] == c
        invariant
            0 <= a <= s.len(),
            forall|j: int| 0 <= j < a ==> s@[j] == c,
        decreases s.len() - a,
    {
        a += 1;
    }
    proof {
        lemma_lead_len_is(s@, p, a as int);
    }
    slice_chars(s, a, s.len())
}

/// Removes every trailing occurrence of `c`.
pub fn trim_end_char(s: &Vec<char>, c: char) -> (r: Vec<char>)
    ensures
        r@ == trim_end_by(s@, |x: char| x == c),
{
    let ghost p = |x: char| x == c;
    let mut b: usize = s.len();
    while b > 0 && s[b - 1] == c
        invariant
            b <= s.len(),
            forall|j: int| b <= j < s.len() ==> s@[j] == c,
        decreases b,
    {
        b -= 1;
    }
    proof {
        lemma_trail_len_is(s@, p, (s.len() - b) as int);
    }
    slice_chars(s, 0, b)
}

} // verus!

verus! {

/// Equality of character vectors.
pub fn eq_chars(a: &Vec<char>, b: &Vec<char>) -> (r: bool)
    ensures
        r == (a@ == b@),
{
    if a.len() != b.len() {
        return false;
    }
    let mut i: usize = 0;
    while i < a.len()
        invariant
            a.len() == b.len(),
            0 <= i <= a.len(),
            forall|j: int| 0 <= j < i ==> a@[j] == b@[j],
        decreases a.len() - i,
    {
        if a[i] != b[i] {
            return false;
        }
        i += 1;
    }
    assert(a@ =~= b@);
    true
}

/// Does `s` hold exactly the text `lit`?
pub fn is_text(s: &str, lit: &str) -> (r: bool)
    ensures
        r == (s@ == lit@),
{
    eq_chars(&to_chars(s), &to_chars(lit))
}

/// `a + b` as a new string.
pub fn cat(a: &str, b: &str) -> (r: String)
    ensures
        r@ == a@ + b@,
{
    from_chars(&concat_chars(&to_chars(a), &to_chars(b)))
}

/// `s.is_empty()`.
pub fn is_blank(s: &str) -> (r: bool)
    ensures
        r == (s@.len() == 0),
{
    to_chars(s).len() == 0
}

/// `parts.join(sep)` for strings.
pub fn join_strings(parts: &Vec<String>, sep: &str) -> (r: String)
    ensures
        r@ == join_with(parts.deep_view(), sep@),
{
    let mut cs: Vec<Vec<char>> = Vec::new();
    for i in 0..parts.len()
        invariant
            cs.deep_view() == parts.deep_view().take(i as int),
    {
        let c = to_chars(parts[i].as_str());
        let ghost before = cs.deep_view();
        assert(c.deep_view() =~= c@);
        cs.push(c);
        assert(cs.deep_view() =~= before.push(c@));
        assert(cs.deep_view() =~= parts.deep_view().take(i + 1));
    }
    assert(parts.deep_view().take(parts.len() as int) =~= parts.deep_view());
    from_chars(&join_chars(&cs, &to_chars(sep)))
}

/// Does `list` contain an element with the characters of `x`?
pub fn has_string(list: &Vec<String>, x: &str) -> (r: bool)
    ensures
        r == list.deep_view().contains(x@),
{
    let xs = to_chars(x);
    for i in 0..list.len()
        invariant
            xs@ == x@,
            forall|j: int| 0 <= j < i ==> list.deep_view()[j] != x@,
    {
        if eq_chars(&to_chars(list[i].as_str()), &xs) {
            assert(list.deep_view()[i as int] == x@);
            return true;
        }
    }
    false
}

} // verus!
