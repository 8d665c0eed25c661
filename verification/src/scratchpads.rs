//! Scratchpads: markdown documents with a small `---` frontmatter header,
//! revision-guarded edits, and line/heading-oriented reads.
use vstd::prelude::*;
use crate::num::{parse_int, parse_i64, int_text, fmt_i64};
use crate::order::{keep, lemma_keep_step, lemma_keep_all, views};
use crate::text::{
    dup, dup_all, to_chars, from_chars, starts_with, starts_with_chars, find_seq, find_chars,
    find_from, occurs_at, lemma_find_from, skip_chars, slice_chars, split_on, split_chars,
    lemma_split_nonempty, lemma_split_len, join_with, join_chars, join_strings, trim, trim_chars, trim_start_by,
    trim_end_by, lead_len, trail_len, lemma_lead_len_is, lemma_trail_len_is, eq_chars, cat,
    concat_chars, is_blank, is_ws, char_is_ws, lower, to_lower,
};
use crate::todos::{paged, page, has_all, has_all_tags};
use crate::clock::{is_stamp, now};
use crate::comments::{norm_target, off_target, norm_target_exec};
use crate::errors::{Error, Result, debug_str, debug_text};
use crate::ids::is_id;
use crate::order::{text_lt, chars_lt, SortKey, stable_sort, before_fn, sort_stable, ascending, insert_all_sorted};
use crate::project::{Project, ProjectV, join_path, join_path_exec, base_name, base_name_exec};
use crate::text::{contains_seq, contains_chars, ends_with, ends_with_chars, has_string};

verus! {

#[derive(Debug, Clone, Default)]
pub struct Scratchpad {
    pub id: String,
    pub title: String,
    pub tags: Vec<String>,
    pub status: String,
    pub revision: i64,
    pub created: String,
    pub updated: String,
    /// Who created / last mutated this; empty on pads written before
    /// attribution existed.
    pub created_by: String,
    pub updated_by: String,
    pub content: String,
}

pub struct PadV {
    pub id: Seq<char>,
    pub title: Seq<char>,
    pub tags: Seq<Seq<char>>,
    pub status: Seq<char>,
    pub revision: int,
    pub created: Seq<char>,
    pub updated: Seq<char>,
    pub created_by: Seq<char>,
    pub updated_by: Seq<char>,
    pub content: Seq<char>,
}

impl View for Scratchpad {
    type V = PadV;

    open spec fn view(&self) -> PadV {
        PadV {
            id: self.id@,
            title: self.title@,
            tags: self.tags.deep_view(),
            status: self.status@,
            revision: self.revision as int,
            created: self.created@,
            updated: self.updated@,
            created_by: self.created_by@,
            updated_by: self.updated_by@,
            content: self.content@,
        }
    }
}


impl Scratchpad {
    pub fn copy(&self) -> (r: Scratchpad)
        ensures
            r@ == self@,
    {
        Scratchpad {
            id: dup(&self.id),
            title: dup(&self.title),
            tags: dup_all(&self.tags),
            status: dup(&self.status),
            revision: self.revision,
            created: dup(&self.created),
            updated: dup(&self.updated),
            created_by: dup(&self.created_by),
            updated_by: dup(&self.updated_by),
            content: dup(&self.content),
        }
    }
}

// ------------------------------------------------------------ the file format
/// What a pad with no header parses to, before its content is set.
pub open spec fn blank_pad() -> PadV {
    PadV {
        id: Seq::empty(),
        title: Seq::empty(),
        tags: Seq::empty(),
        status: "active"@,
        revision: 0,
        created: Seq::empty(),
        updated: Seq::empty(),
        created_by: Seq::empty(),
        updated_by: Seq::empty(),
        content: Seq::empty(),
    }
}

pub open spec fn is_bracket(c: char) -> bool {
    c == '[' || c == ']'
}

pub open spec fn nonempty() -> spec_fn(Seq<char>) -> bool {
    |x: Seq<char>| x.len() > 0
}

/// The tags of a `tags: [a, b]` header value: brackets and surrounding
/// space dropped, split on commas, each trimmed, empties dropped.
pub open spec fn tag_list(v: Seq<char>) -> Seq<Seq<char>> {
    let t = trim(trim_end_by(trim_start_by(v, |c: char| is_bracket(c)), |c: char| is_bracket(c)));
    if t.len() == 0 {
        Seq::empty()
    } else {
        keep(split_on(t, ',').map_values(|x: Seq<char>| trim(x)), nonempty())
    }
}

/// One `key: value` header line applied to the pad; unknown keys and lines
/// without ": " change nothing, and an unparsable revision reads as 0.
pub open spec fn apply_line(p: PadV, line: Seq<char>) -> PadV {
    match find_seq(line, ": "@) {
        None => p,
        Some(i) => {
            let k = line.take(i);
            let v = line.skip(i + 2);
            if k == "id"@ {
                PadV { id: v, ..p }
            } else if k == "title"@ {
                PadV { title: v, ..p }
            } else if k == "status"@ {
                PadV { status: v, ..p }
            } else if k == "created"@ {
                PadV { created: v, ..p }
            } else if k == "updated"@ {
                PadV { updated: v, ..p }
            } else if k == "created_by"@ {
                PadV { created_by: v, ..p }
            } else if k == "updated_by"@ {
                PadV { updated_by: v, ..p }
            } else if k == "revision"@ {
                PadV {
                    revision: match parse_int(v) {
                        Some(n) => n,
                        None => 0,
                    },
                    ..p
                }
            } else if k == "tags"@ {
                PadV { tags: tag_list(v), ..p }
            } else {
                p
            }
        },
    }
}

pub open spec fn apply_lines(p: PadV, lines: Seq<Seq<char>>) -> PadV
    decreases lines.len(),
{
    if lines.len() == 0 {
        p
    } else {
        apply_line(apply_lines(p, lines.drop_last()), lines.last())
    }
}

/// A pad file's text parsed: a `---` header block of `key: value` lines
/// closed by a `---` line, then the markdown body. Text without that
/// header is all body.
pub open spec fn pad_of_text(text: Seq<char>) -> PadV {
    let whole = PadV { content: text, ..blank_pad() };
    if !starts_with(text, "---\n"@) {
        whole
    } else {
        let rest = text.skip(4);
        match find_seq(rest, "\n---\n"@) {
            None => whole,
            Some(e) => PadV { content: rest.skip(e + 5), ..apply_lines(blank_pad(), split_on(rest.take(e), '\n')) },
        }
    }
}

/// What `String::from_utf8_lossy` makes of some bytes.
pub uninterp spec fn lossy_text(b: Seq<u8>) -> Seq<char>;

/// `String::from_utf8_lossy(b).into_owned()`.
#[verifier::external_body]
fn utf8_lossy(b: &[u8]) -> (r: String)
    ensures
        r@ == lossy_text(b@),
{
    String::from_utf8_lossy(b).into_owned()
}

/// Parses a scratchpad file's bytes (invalid UTF-8 is replaced, as
/// `from_utf8_lossy` does).
pub fn parse_pad(b: &[u8]) -> (s: Scratchpad)
    ensures
        s@ == pad_of_text(lossy_text(b@)),
{
    parse_pad_text(utf8_lossy(b).as_str())
}

fn blank_scratchpad() -> (s: Scratchpad)
    ensures
        s@ == blank_pad(),
{
    let s = Scratchpad {
        id: String::new(),
        title: String::new(),
        tags: Vec::new(),
        status: from_chars(&to_chars("active")),
        revision: 0,
        created: String::new(),
        updated: String::new(),
        created_by: String::new(),
        updated_by: String::new(),
        content: String::new(),
    };
    assert(s.tags.deep_view() =~= Seq::<Seq<char>>::empty());
    s
}

fn trim_brackets(v: &Vec<char>) -> (r: Vec<char>)
    ensures
        r@ == trim_end_by(trim_start_by(v@, |c: char| is_bracket(c)), |c: char| is_bracket(c)),
{
    let ghost p = |c: char| is_bracket(c);
    let mut a: usize = 0;
    while a < v.len() && (v[a] == '[' || v[a] == ']')
        invariant
            0 <= a <= v.len(),
            forall|j: int| 0 <= j < a ==> is_bracket(v@[j]),
        decreases v.len() - a,
    {
        a += 1;
    }
    proof {
        lemma_lead_len_is(v@, p, a as int);
    }
    let t = skip_chars(v, a);
    let mut b: usize = t.len();
    while b > 0 && (t[b - 1] == '[' || t[b - 1] == ']')
        invariant
            b <= t.len(),
            forall|j: int| b <= j < t.len() ==> is_bracket(t@[j]),
        decreases b,
    {
        b -= 1;
    }
    proof {
        lemma_trail_len_is(t@, p, (t.len() - b) as int);
        assert(t@.take(b as int) =~= t@.subrange(0, b as int));
    }
    slice_chars(&t, 0, b)
}

pub fn parse_tag_list(v: &str) -> (r: Vec<String>)
    ensures
        r.deep_view() == tag_list(v@),
{
    let t = trim_chars(&trim_brackets(&to_chars(v)));
    let mut out: Vec<String> = Vec::new();
    if t.len() == 0 {
        assert(out.deep_view() =~= Seq::<Seq<char>>::empty());
        return out;
    }
    let parts = split_chars(&t, ',');
    let ghost f = |x: Seq<char>| trim(x);
    let ghost ms = parts.deep_view().map_values(f);
    let ghost p = nonempty();
    for i in 0..parts.len()
        invariant
            ms == parts.deep_view().map_values(f),
            f == (|x: Seq<char>| trim(x)),
            p == nonempty(),
            out.deep_view() == keep(ms.take(i as int), p),
    {
        proof {
            lemma_keep_step(ms, i as int, p);
        }
        let x = trim_chars(&parts[i]);
        assert(parts.deep_view()[i as int] == parts@[i as int]@);
        assert(x@ == ms[i as int]);
        if x.len() > 0 {
            let ghost before = out.deep_view();
            let s = from_chars(&x);
            out.push(s);
            assert(out.deep_view() =~= before.push(x@));
        }
    }
    proof {
        lemma_keep_all(ms, p);
    }
    out
}

fn apply_line_exec(p: &mut Scratchpad, line: &Vec<char>)
    ensures
        final(p)@ == apply_line(old(p)@, line@),
{
    proof {
        reveal_strlit(": ");
    }
    let sep = to_chars(": ");
    let i = match find_chars(line, &sep) {
        None => return,
        Some(i) => i,
    };
    proof {
        lemma_find_from(line@, sep@, 0);
        assert(find_from(line@, sep@, 0) == Some(i as int));
        assert(occurs_at(line@, sep@, i as int));
        assert(sep@.len() == 2);
        assert(i + 2 <= line.len());
    }
    let k = slice_chars(line, 0, i);
    let v = skip_chars(line, i + 2);
    assert(k@ =~= line@.take(i as int));
    let vs = from_chars(&v);
    if eq_chars(&k, &to_chars("id")) {
        p.id = vs;
    } else if eq_chars(&k, &to_chars("title")) {
        p.title = vs;
    } else if eq_chars(&k, &to_chars("status")) {
        p.status = vs;
    } else if eq_chars(&k, &to_chars("created")) {
        p.created = vs;
    } else if eq_chars(&k, &to_chars("updated")) {
        p.updated = vs;
    } else if eq_chars(&k, &to_chars("created_by")) {
        p.created_by = vs;
    } else if eq_chars(&k, &to_chars("updated_by")) {
        p.updated_by = vs;
    } else if eq_chars(&k, &to_chars("revision")) {
        p.revision = match parse_i64(&v) {
            Some(n) => n,
            None => 0,
        };
    } else if eq_chars(&k, &to_chars("tags")) {
        p.tags = parse_tag_list(vs.as_str());
    }
}

/// Parses a scratchpad file's text.
pub fn parse_pad_text(text: &str) -> (s: Scratchpad)
    ensures
        s@ == pad_of_text(text@),
{
    proof {
        reveal_strlit("---\n");
        reveal_strlit("\n---\n");
    }
    let t = to_chars(text);
    let mut s = blank_scratchpad();
    if !starts_with_chars(&t, &to_chars("---\n")) {
        s.content = from_chars(&t);
        return s;
    }
    let rest = skip_chars(&t, 4);
    let close = to_chars("\n---\n");
    let e = match find_chars(&rest, &close) {
        None => {
            s.content = from_chars(&t);
            return s;
        },
        Some(e) => e,
    };
    proof {
        lemma_find_from(rest@, close@, 0);
        assert(find_from(rest@, close@, 0) == Some(e as int));
        assert(occurs_at(rest@, close@, e as int));
    }
    assert(close@.len() == 5);
    assert(e + 5 <= rest.len());
    let header = slice_chars(&rest, 0, e);
    let body = from_chars(&skip_chars(&rest, e + 5));
    assert(header@ =~= rest@.take(e as int));
    let lines = split_chars(&header, '\n');
    for i in 0..lines.len()
        invariant
            s@ == apply_lines(blank_pad(), lines.deep_view().take(i as int)),
    {
        proof {
            let t1 = lines.deep_view().take(i + 1);
            assert(t1.drop_last() =~= lines.deep_view().take(i as int));
            assert(t1.last() == lines.deep_view()[i as int]);
            assert(lines.deep_view()[i as int] == lines@[i as int]@);
        }
        apply_line_exec(&mut s, &lines[i]);
    }
    assert(lines.deep_view().take(lines.len() as int) =~= lines.deep_view());
    s.content = body;
    s
}

/// `k: v` and a newline, or nothing for an empty value.
pub open spec fn attr_line(k: Seq<char>, v: Seq<char>) -> Seq<char> {
    if v.len() == 0 {
        Seq::empty()
    } else {
        k + ": "@ + v + "\n"@
    }
}

/// A pad's file text: the header with its seven fields (the attribution
/// lines only when set), then the body.
pub open spec fn rendered(p: PadV) -> Seq<char> {
    "---\nid: "@ + p.id + "\ntitle: "@ + p.title + "\ntags: ["@ + join_with(p.tags, ", "@)
        + "]\nstatus: "@ + p.status + "\nrevision: "@ + int_text(p.revision) + "\ncreated: "@
        + p.created + "\nupdated: "@ + p.updated + "\n"@ + attr_line("created_by"@, p.created_by)
        + attr_line("updated_by"@, p.updated_by) + "---\n"@ + p.content
}

fn attr_exec(k: &str, v: &str) -> (r: String)
    ensures
        r@ == attr_line(k@, v@),
{
    if is_blank(v) {
        String::new()
    } else {
        cat(cat(cat(k, ": ").as_str(), v).as_str(), "\n")
    }
}

impl Scratchpad {
    /// The file text for this pad.
    pub fn render(&self) -> (r: String)
        ensures
            r@ == rendered(self@),
    {
        let mut r = cat("---\nid: ", self.id.as_str());
        r = cat(r.as_str(), "\ntitle: ");
        r = cat(r.as_str(), self.title.as_str());
        r = cat(r.as_str(), "\ntags: [");
        r = cat(r.as_str(), join_strings(&self.tags, ", ").as_str());
        r = cat(r.as_str(), "]\nstatus: ");
        r = cat(r.as_str(), self.status.as_str());
        r = cat(r.as_str(), "\nrevision: ");
        r = cat(r.as_str(), from_chars(&fmt_i64(self.revision)).as_str());
        r = cat(r.as_str(), "\ncreated: ");
        r = cat(r.as_str(), self.created.as_str());
        r = cat(r.as_str(), "\nupdated: ");
        r = cat(r.as_str(), self.updated.as_str());
        r = cat(r.as_str(), "\n");
        r = cat(r.as_str(), attr_exec("created_by", self.created_by.as_str()).as_str());
        r = cat(r.as_str(), attr_exec("updated_by", self.updated_by.as_str()).as_str());
        r = cat(r.as_str(), "---\n");
        r = cat(r.as_str(), self.content.as_str());
        r
    }
}


// ------------------------------------------------------------ headings and lines
pub open spec fn is_space(c: char) -> bool {
    c == ' '
}

pub open spec fn is_hash(c: char) -> bool {
    c == '#'
}

/// `Some((text, depth))` when the line is `#...# text` (indented by spaces
/// or not); a space after the hashes is required.
pub open spec fn heading_of(line: Seq<char>) -> Option<(Seq<char>, nat)> {
    let t = trim_start_by(line, |c: char| is_space(c));
    let n = lead_len(t, |c: char| is_hash(c));
    if n == 0 || n >= t.len() || t[n as int] != ' ' {
        None
    } else {
        Some((trim(t.skip(n + 1 as int)), n))
    }
}

/// Returns the heading text and depth of a markdown heading line.
pub fn heading_text(line: &str) -> (r: Option<(String, usize)>)
    ensures
        r matches Some(x) ==> heading_of(line@) == Some((x.0@, x.1 as nat)),
        r is None ==> heading_of(line@) is None,
{
    let v = to_chars(line);
    let mut a: usize = 0;
    while a < v.len() && v[a] == ' '
        invariant
            0 <= a <= v.len(),
            forall|j: int| 0 <= j < a ==> is_space(v@[j]),
        decreases v.len() - a,
    {
        a += 1;
    }
    proof {
        lemma_lead_len_is(v@, |c: char| is_space(c), a as int);
    }
    let t = skip_chars(&v, a);
    let mut n: usize = 0;
    while n < t.len() && t[n] == '#'
        invariant
            0 <= n <= t.len(),
            forall|j: int| 0 <= j < n ==> is_hash(t@[j]),
        decreases t.len() - n,
    {
        n += 1;
    }
    proof {
        lemma_lead_len_is(t@, |c: char| is_hash(c), n as int);
    }
    if n == 0 || n >= t.len() || t[n] != ' ' {
        return None;
    }
    let h = trim_chars(&skip_chars(&t, n + 1));
    Some((from_chars(&h), n))
}

/// `s.split(p)` for a character predicate.
pub open spec fn split_by(s: Seq<char>, p: spec_fn(char) -> bool) -> Seq<Seq<char>>
    decreases s.len(),
{
    if s.len() == 0 {
        seq![Seq::<char>::empty()]
    } else {
        let r = split_by(s.drop_last(), p);
        if p(s.last()) {
            r.push(Seq::<char>::empty())
        } else {
            r.update(r.len() - 1, r.last().push(s.last()))
        }
    }
}

pub proof fn lemma_split_by_nonempty(s: Seq<char>, p: spec_fn(char) -> bool)
    ensures
        split_by(s, p).len() >= 1,
    decreases s.len(),
{
    if s.len() > 0 {
        lemma_split_by_nonempty(s.drop_last(), p);
    }
}

/// `s.split_whitespace()`.
pub open spec fn words(s: Seq<char>) -> Seq<Seq<char>> {
    keep(split_by(s, |c: char| is_ws(c)), nonempty())
}

/// A heading compared loosely: words joined by single spaces, lower-cased.
pub open spec fn norm_heading(h: Seq<char>) -> Seq<char> {
    lower(join_with(words(h), " "@))
}

fn words_exec(s: &Vec<char>) -> (r: Vec<Vec<char>>)
    ensures
        r.deep_view() == words(s@),
{
    let ghost p = |c: char| is_ws(c);
    let ghost ne = nonempty();
    let mut out: Vec<Vec<char>> = Vec::new();
    let mut cur: Vec<char> = Vec::new();
    let ghost mut done: Seq<Seq<char>> = Seq::empty();
    for i in 0..s.len()
        invariant
            p == (|c: char| is_ws(c)),
            ne == nonempty(),
            split_by(s@.take(i as int), p) == done.push(cur@),
            out.deep_view() == keep(done, ne),
    {
        proof {
            let t = s@.take(i + 1);
            assert(t.drop_last() =~= s@.take(i as int));
            assert(t.last() == s@[i as int]);
            lemma_split_by_nonempty(s@.take(i as int), p);
        }
        if char_is_ws(s[i]) {
            proof {
                assert(keep(done.push(cur@), ne) == if ne(cur@) { keep(done, ne).push(cur@) } else { keep(done, ne) }) by {
                    assert(done.push(cur@).drop_last() =~= done);
                }
            }
            if cur.len() > 0 {
                let ghost before = out.deep_view();
                let c = cur;
                assert(c.deep_view() =~= c@);
                out.push(c);
                assert(out.deep_view() =~= before.push(c@));
                proof {
                    done = done.push(c@);
                }
            } else {
                proof {
                    done = done.push(cur@);
                }
            }
            cur = Vec::new();
            assert(split_by(s@.take(i + 1), p) =~= done.push(cur@));
        } else {
            let ghost before = done.push(cur@);
            cur.push(s[i]);
            assert(split_by(s@.take(i + 1), p) =~= done.push(cur@));
        }
    }
    proof {
        assert(s@.take(s.len() as int) =~= s@);
        assert(keep(done.push(cur@), ne) == if ne(cur@) { keep(done, ne).push(cur@) } else { keep(done, ne) }) by {
            assert(done.push(cur@).drop_last() =~= done);
        }
    }
    if cur.len() > 0 {
        let ghost before = out.deep_view();
        let c = cur;
        assert(c.deep_view() =~= c@);
        out.push(c);
        assert(out.deep_view() =~= before.push(c@));
    }
    out
}

/// Normalizes a heading for loose comparison.
/// The whitespace-separated words of a text.
pub fn words_of(s: &str) -> (r: Vec<String>)
    ensures
        r.deep_view() == words(s@),
{
    let ws = words_exec(&to_chars(s));
    let mut out: Vec<String> = Vec::new();
    for i in 0..ws.len()
        invariant
            out.deep_view() == ws.deep_view().take(i as int),
    {
        let ghost before = out.deep_view();
        let w = from_chars(&ws[i]);
        out.push(w);
        assert(out.deep_view() =~= before.push(w@));
        assert(ws.deep_view()[i as int] == ws@[i as int]@);
        assert(out.deep_view() =~= ws.deep_view().take(i + 1));
    }
    assert(ws.deep_view().take(ws.len() as int) =~= ws.deep_view());
    out
}

pub fn norm_heading_exec(h: &str) -> (r: String)
    ensures
        r@ == norm_heading(h@),
{
    let ws = words_exec(&to_chars(h));
    let joined = from_chars(&join_chars(&ws, &to_chars(" ")));
    to_lower(joined.as_str())
}

pub open spec fn lines_of(s: Seq<char>) -> Seq<Seq<char>> {
    split_on(s, '\n')
}

pub open spec fn join_lines(ls: Seq<Seq<char>>) -> Seq<char> {
    join_with(ls, "\n"@)
}

fn lines_exec(s: &str) -> (r: Vec<Vec<char>>)
    ensures
        r.deep_view() == lines_of(s@),
        r.len() >= 1,
{
    proof {
        lemma_split_nonempty(s@, '\n');
    }
    split_chars(&to_chars(s), '\n')
}

fn join_lines_exec(ls: &Vec<Vec<char>>) -> (r: String)
    ensures
        r@ == join_lines(ls.deep_view()),
{
    from_chars(&join_chars(ls, &to_chars("\n")))
}

/// The first H1 heading's text (after "# ", trimmed), or empty.
pub open spec fn h1_in(lines: Seq<Seq<char>>) -> Seq<char>
    decreases lines.len(),
{
    if lines.len() == 0 {
        Seq::empty()
    } else if starts_with(lines[0], "# "@) {
        trim(lines[0].skip(2))
    } else {
        h1_in(lines.drop_first())
    }
}

pub open spec fn first_h1(content: Seq<char>) -> Seq<char> {
    h1_in(lines_of(content))
}

pub fn first_h1_exec(content: &str) -> (r: String)
    ensures
        r@ == first_h1(content@),
{
    proof {
        reveal_strlit("# ");
    }
    let lines = lines_exec(content);
    let pre = to_chars("# ");
    let mut i: usize = 0;
    assert(lines.deep_view().skip(0) =~= lines.deep_view());
    while i < lines.len()
        invariant
            0 <= i <= lines.len(),
            pre@ == "# "@,
            pre@.len() == 2,
            lines.deep_view() == lines_of(content@),
            h1_in(lines.deep_view()) == h1_in(lines.deep_view().skip(i as int)),
        decreases lines.len() - i,
    {
        let ghost rest = lines.deep_view().skip(i as int);
        assert(rest[0] == lines@[i as int]@);
        if starts_with_chars(&lines[i], &pre) {
            assert(rest.len() > 0);
            assert(starts_with(rest[0], "# "@));
            assert(h1_in(rest) == trim(rest[0].skip(2)));
            return from_chars(&trim_chars(&skip_chars(&lines[i], 2)));
        }
        assert(rest.drop_first() =~= lines.deep_view().skip(i + 1));
        i += 1;
    }
    String::new()
}

pub open spec fn is_heading_line() -> spec_fn(Seq<char>) -> bool {
    |l: Seq<char>| heading_of(l) is Some
}

/// Only the heading lines of a document.
pub open spec fn headings_text(content: Seq<char>) -> Seq<char> {
    join_lines(keep(lines_of(content), is_heading_line()))
}

pub fn headings_of(content: &str) -> (r: String)
    ensures
        r@ == headings_text(content@),
{
    let lines = lines_exec(content);
    let ghost ls = lines.deep_view();
    let ghost p = is_heading_line();
    let mut out: Vec<Vec<char>> = Vec::new();
    for i in 0..lines.len()
        invariant
            ls == lines.deep_view(),
            p == is_heading_line(),
            out.deep_view() == keep(ls.take(i as int), p),
    {
        proof {
            lemma_keep_step(ls, i as int, p);
        }
        assert(ls[i as int] == lines@[i as int]@);
        let l = from_chars(&lines[i]);
        if heading_text(l.as_str()).is_some() {
            let ghost before = out.deep_view();
            let c = to_chars(l.as_str());
            out.push(c);
            assert(out.deep_view() =~= before.push(c@));
        }
    }
    proof {
        lemma_keep_all(ls, p);
    }
    join_lines_exec(&out)
}

/// The line is a heading whose normalized text is `want`.
pub open spec fn heading_matches(line: Seq<char>, want: Seq<char>) -> bool {
    heading_of(line) matches Some(x) && x.0.len() > 0 && norm_heading(x.0) == want
}

/// The first line at or after `i` that is a matching heading.
pub open spec fn find_heading(lines: Seq<Seq<char>>, want: Seq<char>, i: int) -> Option<int>
    decreases lines.len() - i,
{
    if i < 0 || i >= lines.len() {
        None
    } else if heading_matches(lines[i], want) {
        Some(i)
    } else {
        find_heading(lines, want, i + 1)
    }
}

/// The first line at or after `j` that is a heading of depth at most
/// `depth`, or the number of lines.
pub open spec fn section_end(lines: Seq<Seq<char>>, depth: nat, j: int) -> int
    decreases lines.len() - j,
{
    if j < 0 || j >= lines.len() {
        lines.len() as int
    } else if heading_of(lines[j]) matches Some(x) && x.1 <= depth {
        j
    } else {
        section_end(lines, depth, j + 1)
    }
}

/// The body under a heading (matched loosely), from the heading line up to
/// the next heading of the same or shallower depth; empty when there is no
/// such heading.
pub open spec fn section_text(content: Seq<char>, heading: Seq<char>) -> Seq<char> {
    let lines = lines_of(content);
    match find_heading(lines, norm_heading(heading), 0) {
        None => Seq::empty(),
        Some(s) => {
            let h = heading_of(lines[s])->0;
            let d = h.1;
            join_lines(lines.subrange(s, section_end(lines, d, s + 1)))
        },
    }
}

pub proof fn lemma_section_end_range(lines: Seq<Seq<char>>, depth: nat, j: int)
    requires
        0 <= j,
    ensures
        j <= section_end(lines, depth, j) <= lines.len() || (j > lines.len() && section_end(lines, depth, j) == lines.len()),
    decreases lines.len() - j,
{
    if j < lines.len() {
        if !(heading_of(lines[j]) matches Some(x) && x.1 <= depth) {
            lemma_section_end_range(lines, depth, j + 1);
        }
    }
}

fn find_heading_exec(lines: &Vec<Vec<char>>, want: &Vec<char>) -> (r: Option<(usize, usize)>)
    ensures
        r matches Some(x) ==> (x.0 < lines.len() && find_heading(lines.deep_view(), want@, 0) == Some(x.0 as int)
            && (heading_of(lines.deep_view()[x.0 as int]) matches Some(h) && h.1 == x.1)),
        r is None ==> find_heading(lines.deep_view(), want@, 0) is None,
{
    let ghost ls = lines.deep_view();
    let mut i: usize = 0;
    while i < lines.len()
        invariant
            0 <= i <= lines.len(),
            ls == lines.deep_view(),
            find_heading(ls, want@, 0) == find_heading(ls, want@, i as int),
        decreases lines.len() - i,
    {
        assert(ls[i as int] == lines@[i as int]@);
        match heading_text(from_chars(&lines[i]).as_str()) {
            Some((h, d)) => {
                if !is_blank(h.as_str()) && eq_chars(&to_chars(norm_heading_exec(h.as_str()).as_str()), want) {
                    return Some((i, d));
                }
            },
            None => {},
        }
        i += 1;
    }
    None
}

fn section_end_exec(lines: &Vec<Vec<char>>, depth: usize, from: usize) -> (r: usize)
    requires
        from <= lines.len(),
    ensures
        r == section_end(lines.deep_view(), depth as nat, from as int),
        from <= r <= lines.len(),
{
    let ghost ls = lines.deep_view();
    let mut j: usize = from;
    while j < lines.len()
        invariant
            from <= j <= lines.len(),
            ls == lines.deep_view(),
            section_end(ls, depth as nat, from as int) == section_end(ls, depth as nat, j as int),
        decreases lines.len() - j,
    {
        assert(ls[j as int] == lines@[j as int]@);
        match heading_text(from_chars(&lines[j]).as_str()) {
            Some((_h, d)) => {
                if d <= depth {
                    return j;
                }
            },
            None => {},
        }
        j += 1;
    }
    j
}

pub fn section_of(content: &str, heading: &str) -> (r: String)
    ensures
        r@ == section_text(content@, heading@),
{
    let lines = lines_exec(content);
    let ghost ls = lines.deep_view();
    let want = to_chars(norm_heading_exec(heading).as_str());
    let (start, depth) = match find_heading_exec(&lines, &want) {
        None => return String::new(),
        Some(x) => x,
    };
    let j = section_end_exec(&lines, depth, start + 1);
    let mut out: Vec<Vec<char>> = Vec::new();
    let mut k: usize = start;
    while k < j
        invariant
            start <= k <= j <= lines.len(),
            ls == lines.deep_view(),
            out.deep_view() == ls.subrange(start as int, k as int),
        decreases j - k,
    {
        let ghost before = out.deep_view();
        let c = slice_chars(&lines[k], 0, lines[k].len());
        assert(c@ =~= lines@[k as int]@);
        assert(ls[k as int] == lines@[k as int]@);
        out.push(c);
        assert(out.deep_view() =~= before.push(c@));
        assert(ls.subrange(start as int, k + 1) =~= ls.subrange(start as int, k as int).push(ls[k as int]));
        k += 1;
    }
    join_lines_exec(&out)
}

/// Lines `offset..offset+limit` of a text, paged like `page`.
pub open spec fn window_text(text: Seq<char>, offset: int, limit: int) -> Seq<char> {
    join_lines(paged(lines_of(text), offset, limit))
}

pub fn line_window(text: &str, offset: i64, limit: i64) -> (r: String)
    ensures
        r@ == window_text(text@, offset as int, limit as int),
{
    let lines = lines_exec(text);
    let ghost ls = lines.deep_view();
    let got = page(lines, offset, limit);
    assert(got.deep_view() =~= paged(ls, offset as int, limit as int)) by {
        assert(forall|j: int| 0 <= j < got@.len() ==> #[trigger] got.deep_view()[j] == got@[j]@);
    }
    join_lines_exec(&got)
}

pub open spec fn first_line_of(s: Seq<char>) -> Seq<char> {
    lines_of(s)[0]
}

pub fn first_line(s: &str) -> (r: String)
    ensures
        r@ == first_line_of(s@),
{
    let lines = lines_exec(s);
    assert(lines.deep_view()[0] == lines@[0]@);
    from_chars(&lines[0])
}


// ------------------------------------------------------------ the store's pads
#[derive(Debug, Clone, Default)]
pub struct EditTarget {
    /// "section" or "line_range".
    pub kind: String,
    pub section_heading: String,
    pub offset: i64,
    pub limit: i64,
}

#[derive(Debug, Clone)]
pub struct Match {
    /// Zero-based line number.
    pub line: i64,
    pub text: String,
    /// The matching line with the requested lines of context around it.
    pub context: String,
}

pub open spec fn has_pad(ps: Seq<PadV>, id: Seq<char>) -> bool {
    exists|i: int| 0 <= i < ps.len() && #[trigger] ps[i].id == id
}

pub open spec fn pad_at(ps: Seq<PadV>, id: Seq<char>, i: int) -> bool {
    &&& 0 <= i < ps.len()
    &&& ps[i].id == id
    &&& forall|j: int| 0 <= j < i ==> #[trigger] ps[j].id != id
}

/// The position of the first pad with the given id.
pub open spec fn first_pad(ps: Seq<PadV>, id: Seq<char>) -> int {
    choose|i: int| pad_at(ps, id, i)
}

pub proof fn lemma_first_pad(ps: Seq<PadV>, id: Seq<char>, i: int)
    requires
        pad_at(ps, id, i),
    ensures
        first_pad(ps, id) == i,
        has_pad(ps, id),
{
    let k = first_pad(ps, id);
    assert(pad_at(ps, id, k));
    if k < i {
        assert(ps[k].id != id);
    }
    if k > i {
        assert(ps[i].id != id);
    }
}

fn find_pad(ps: &Vec<Scratchpad>, id: &str) -> (r: Option<usize>)
    ensures
        r matches Some(i) ==> (pad_at(views(ps@), id@, i as int) && first_pad(views(ps@), id@) == i
            && has_pad(views(ps@), id@)),
        r is None ==> !has_pad(views(ps@), id@),
{
    let idv = to_chars(id);
    for i in 0..ps.len()
        invariant
            idv@ == id@,
            forall|j: int| 0 <= j < i ==> #[trigger] views(ps@)[j].id != id@,
    {
        if eq_chars(&to_chars(ps[i].id.as_str()), &idv) {
            proof {
                lemma_first_pad(views(ps@), id@, i as int);
            }
            return Some(i);
        }
    }
    None
}

/// Whatever pad carries this id can still have its revision bumped.
pub open spec fn revision_room(ps: Seq<PadV>, id: Seq<char>) -> bool {
    forall|i: int| 0 <= i < ps.len() && #[trigger] ps[i].id == id ==> ps[i].revision < i64::MAX
}

/// Whatever pad carries this id has a body short enough to count its
/// lines in an `i64`.
pub open spec fn text_room(ps: Seq<PadV>, id: Seq<char>) -> bool {
    forall|i: int| 0 <= i < ps.len() && #[trigger] ps[i].id == id ==> ps[i].content.len() < i64::MAX
}

/// Why an edit of a found pad is turned down, if it is.
pub enum PadRefusal {
    Fine,
    Missing,
    Other(Seq<char>),
}

pub open spec fn pad_refused_as(r: Result<Scratchpad>, why: PadRefusal) -> bool {
    match why {
        PadRefusal::Fine => false,
        PadRefusal::Missing => r matches Err(Error::NotFound),
        PadRefusal::Other(m) => r matches Err(Error::Other(e)) && e@ == m,
    }
}

pub open spec fn pad_never_refused() -> spec_fn(PadV) -> PadRefusal {
    |p: PadV| PadRefusal::Fine
}

/// `p` with the revision and stamp fields of `like`.
pub open spec fn pad_restamp(p: PadV, like: PadV) -> PadV {
    PadV { revision: like.revision, updated: like.updated, updated_by: like.updated_by, ..p }
}

/// `b` is `a` with only its pads changed.
pub open spec fn same_but_pads(a: ProjectV, b: ProjectV) -> bool {
    &&& b.path == a.path
    &&& b.name == a.name
    &&& b.dir == a.dir
    &&& b.actor == a.actor
    &&& b.todos == a.todos
    &&& b.comments == a.comments
}

/// What a revision-guarded edit of pad `id` does: NotFound when there is no
/// such pad; RevisionMismatch when `exp_rev` is not negative and differs from
/// the pad's revision; a refusal by `check`; otherwise the pad becomes one
/// related to the old one by `ok`, with its revision bumped and stamped now
/// by the actor.
pub open spec fn pad_outcome(
    old: ProjectV,
    new: ProjectV,
    id: Seq<char>,
    exp_rev: int,
    r: Result<Scratchpad>,
    check: spec_fn(PadV) -> PadRefusal,
    ok: spec_fn(PadV, PadV) -> bool,
) -> bool {
    if !has_pad(old.pads, id) {
        r matches Err(Error::NotFound) && new == old
    } else {
        let i = first_pad(old.pads, id);
        let p = old.pads[i];
        if exp_rev >= 0 && p.revision != exp_rev {
            r matches Err(Error::RevisionMismatch) && new == old
        } else if !(check(p) is Fine) {
            pad_refused_as(r, check(p)) && new == old
        } else {
            r matches Ok(s) && ok(p, s@) && s@.revision == p.revision + 1 && is_stamp(s@.updated)
                && s@.updated_by == old.actor && new.pads == old.pads.update(i, s@) && same_but_pads(old, new)
        }
    }
}

/// A new pad made by `actor`.
pub open spec fn fresh_pad(s: PadV, title: Seq<char>, content: Seq<char>, tags: Seq<Seq<char>>, actor: Seq<char>) -> bool {
    &&& is_id("s_"@, s.id)
    &&& s.title == title
    &&& s.tags == tags
    &&& s.status == "active"@
    &&& s.revision == 1
    &&& is_stamp(s.created)
    &&& is_stamp(s.updated)
    &&& s.created_by == actor
    &&& s.updated_by == actor
    &&& s.content == content
}

/// `s` with the first occurrence of `pat` replaced by `rep`.
pub open spec fn replace_first(s: Seq<char>, pat: Seq<char>, rep: Seq<char>) -> Seq<char> {
    match find_seq(s, pat) {
        Some(i) => s.take(i) + rep + s.skip(i + pat.len()),
        None => s,
    }
}

fn replace_first_exec(s: &str, pat: &str, rep: &str) -> (r: String)
    ensures
        r@ == replace_first(s@, pat@, rep@),
{
    let sv = to_chars(s);
    let pv = to_chars(pat);
    match find_chars(&sv, &pv) {
        Some(i) => {
            proof {
                lemma_find_from(sv@, pv@, 0);
                assert(find_from(sv@, pv@, 0) == Some(i as int));
                assert(occurs_at(sv@, pv@, i as int));
            }
            let a = slice_chars(&sv, 0, i);
            let b = skip_chars(&sv, i + pv.len());
            assert(a@ =~= sv@.take(i as int));
            from_chars(&concat_chars(&concat_chars(&a, &to_chars(rep)), &b))
        },
        None => from_chars(&sv),
    }
}

pub open spec fn is_newline(c: char) -> bool {
    c == '\n'
}

/// What appending gives: a newline first when asked for and the body is
/// non-empty without a trailing newline.
pub open spec fn appended(content: Seq<char>, more: Seq<char>, newline: bool) -> Seq<char> {
    if newline && content.len() > 0 && !ends_with(content, "\n"@) {
        content + "\n"@ + more
    } else {
        content + more
    }
}

pub open spec fn section_check(heading: Seq<char>) -> spec_fn(PadV) -> PadRefusal {
    |p: PadV| if section_text(p.content, heading).len() == 0 { PadRefusal::Missing } else { PadRefusal::Fine }
}

/// The body after appending to a section: the section's trailing newlines
/// dropped, a newline, then the new text.
pub open spec fn section_appended(content: Seq<char>, heading: Seq<char>, more: Seq<char>) -> Seq<char> {
    let sec = section_text(content, heading);
    replace_first(content, sec, trim_end_by(sec, |c: char| is_newline(c)) + "\n"@ + more)
}

/// The replacement for a section edit: the new text, kept under the old
/// heading line unless it starts with a heading of its own.
pub open spec fn section_replacement(sec: Seq<char>, content: Seq<char>) -> Seq<char> {
    if heading_of(content) is Some {
        content
    } else {
        first_line_of(sec) + "\n"@ + content
    }
}

pub open spec fn range_ok(lines: Seq<Seq<char>>, offset: int, limit: int) -> bool {
    let n = lines.len() as int;
    !(offset < 0 || limit < 0 || offset > n || limit > n - offset)
}

pub open spec fn edit_check(kind: Seq<char>, heading: Seq<char>, offset: int, limit: int) -> spec_fn(PadV) -> PadRefusal {
    |p: PadV|
        if kind == "section"@ {
            if section_text(p.content, heading).len() == 0 {
                PadRefusal::Missing
            } else {
                PadRefusal::Fine
            }
        } else if kind == "line_range"@ {
            if !range_ok(lines_of(p.content), offset, limit) {
                PadRefusal::Other("line range out of bounds"@)
            } else {
                PadRefusal::Fine
            }
        } else {
            PadRefusal::Other("unknown edit target "@ + debug_text(kind))
        }
}

/// The body after an edit that passed its check.
pub open spec fn edited_body(content: Seq<char>, kind: Seq<char>, heading: Seq<char>, offset: int, limit: int, text: Seq<char>) -> Seq<char> {
    if kind == "section"@ {
        let sec = section_text(content, heading);
        replace_first(content, sec, section_replacement(sec, text))
    } else {
        let lines = lines_of(content);
        join_lines(lines.take(offset) + lines_of(text) + lines.skip(offset + limit))
    }
}

pub open spec fn body_set(f: spec_fn(Seq<char>) -> Seq<char>) -> spec_fn(PadV, PadV) -> bool {
    |a: PadV, b: PadV| b == pad_restamp(PadV { content: f(a.content), ..a }, b)
}

/// What `read_scratchpad` shows: headings, a section, or the whole body,
/// then a line window when an offset or limit is positive.
pub open spec fn read_view(content: Seq<char>, mode: Seq<char>, heading: Seq<char>, offset: int, limit: int) -> Seq<char> {
    let t = if mode == "headings"@ {
        headings_text(content)
    } else if mode == "section"@ {
        section_text(content, heading)
    } else {
        content
    };
    if offset > 0 || limit > 0 {
        window_text(t, offset, limit)
    } else {
        t
    }
}

/// A pad shows in a listing: not archived (unless asked for), carrying
/// every asked-for tag, and matching the query in its title or body.
pub open spec fn pad_listed(p: PadV, tags: Seq<Seq<char>>, query: Seq<char>, include_archived: bool) -> bool {
    &&& (p.status != "archived"@ || include_archived)
    &&& (tags.len() == 0 || has_all(p.tags, tags))
    &&& (query.len() == 0 || contains_seq(lower(p.title + " "@ + p.content), lower(query)))
}

pub open spec fn pad_listed_fn(tags: Seq<Seq<char>>, query: Seq<char>, include_archived: bool) -> spec_fn(PadV) -> bool {
    |p: PadV| pad_listed(p, tags, query, include_archived)
}

pub open spec fn without_body(p: PadV) -> PadV {
    PadV { content: Seq::empty(), ..p }
}

/// The file name a pad is stored under.
pub open spec fn pad_file(id: Seq<char>) -> Seq<char> {
    id + ".md"@
}

impl SortKey for Scratchpad {
    /// 0: by file name ascending (directory order); otherwise by updated,
    /// newest first.
    open spec fn before(a: PadV, b: PadV, mode: u8) -> bool {
        if mode == 0 {
            text_lt(pad_file(a.id), pad_file(b.id))
        } else {
            text_lt(b.updated, a.updated)
        }
    }

    fn before_exec(a: &Scratchpad, b: &Scratchpad, mode: u8) -> (r: bool) {
        if mode == 0 {
            chars_lt(&to_chars(cat(a.id.as_str(), ".md").as_str()), &to_chars(cat(b.id.as_str(), ".md").as_str()))
        } else {
            chars_lt(&to_chars(b.updated.as_str()), &to_chars(a.updated.as_str()))
        }
    }
}

/// What `list_scratchpads` returns: pads in directory order, filtered,
/// bodies cleared, sorted newest-updated first (stably), then paged.
pub open spec fn pads_listed(ps: Seq<PadV>, tags: Seq<Seq<char>>, query: Seq<char>, include_archived: bool, offset: int, limit: int) -> Seq<PadV> {
    let by_name = stable_sort(ps, before_fn::<Scratchpad>(0));
    let shown = keep(by_name, pad_listed_fn(tags, query, include_archived)).map_values(|p: PadV| without_body(p));
    paged(stable_sort(shown, before_fn::<Scratchpad>(1)), offset, limit)
}

/// A line is searched: every line in "content" scope, heading lines in
/// "headings" scope.
pub open spec fn line_hit(line: Seq<char>, needle: Seq<char>, scope: Seq<char>, case_sensitive: bool) -> bool {
    &&& (scope != "headings"@ || heading_of(line) is Some)
    &&& contains_seq(if case_sensitive { line } else { lower(line) }, needle)
}

pub open spec fn clamp(x: int, lo: int, hi: int) -> int {
    if x < lo {
        lo
    } else if x > hi {
        hi
    } else {
        x
    }
}

/// The match for line `i`: its text and the lines within `ctx` of it.
pub open spec fn match_at(lines: Seq<Seq<char>>, i: int, ctx: int) -> (int, Seq<char>, Seq<char>) {
    let n = lines.len() as int;
    let lo = clamp(i - ctx, 0, n);
    let hi = clamp(i + ctx + 1, lo, n);
    (i, lines[i], join_lines(lines.subrange(lo, hi)))
}

pub open spec fn match_view(m: Match) -> (int, Seq<char>, Seq<char>) {
    (m.line as int, m.text@, m.context@)
}

/// The matches among the first `k` lines, in line order.
pub open spec fn hits_upto(lines: Seq<Seq<char>>, needle: Seq<char>, scope: Seq<char>, case_sensitive: bool, ctx: int, k: int) -> Seq<(int, Seq<char>, Seq<char>)>
    decreases k,
{
    if k <= 0 {
        Seq::empty()
    } else {
        let prev = hits_upto(lines, needle, scope, case_sensitive, ctx, k - 1);
        if line_hit(lines[k - 1], needle, scope, case_sensitive) {
            prev.push(match_at(lines, k - 1, ctx))
        } else {
            prev
        }
    }
}

/// What `find_in_scratchpad` returns for a body.
pub open spec fn found_in(content: Seq<char>, query: Seq<char>, scope: Seq<char>, case_sensitive: bool, ctx: int) -> Seq<(int, Seq<char>, Seq<char>)> {
    let lines = lines_of(content);
    hits_upto(lines, if case_sensitive { query } else { lower(query) }, scope, case_sensitive, ctx, lines.len() as int)
}

/// The last `n` lines of a body (trailing newlines not counting as a line)
/// and the total line count; `n <= 0` gives only the count.
pub open spec fn tail_of(content: Seq<char>, n: int) -> (Seq<char>, int) {
    let all = lines_of(trim_end_by(content, |c: char| is_newline(c)));
    let total = all.len() as int;
    if n <= 0 {
        (Seq::empty(), total)
    } else {
        let start = if n < total { total - n } else { 0 };
        (join_lines(all.skip(start)), total)
    }
}

/// Every tag some pad carries.
pub open spec fn pad_tagged(ps: Seq<PadV>, y: Seq<char>) -> bool {
    exists|i: int| 0 <= i < ps.len() && #[trigger] ps[i].tags.contains(y)
}

/// The markdown a pad is exported as: its body, under an H1 of its title
/// when the body has none.
pub open spec fn exported(p: PadV) -> Seq<char> {
    if first_h1(p.content).len() == 0 {
        "# "@ + p.title + "\n\n"@ + p.content
    } else {
        p.content
    }
}

/// The title an imported markdown file gets: its first H1, else its file
/// name without ".md".
pub open spec fn import_title(path: Seq<char>, content: Seq<char>) -> Seq<char> {
    if first_h1(content).len() > 0 {
        first_h1(content)
    } else {
        let b = base_name(path);
        if ends_with(b, ".md"@) {
            b.take(b.len() - 3)
        } else {
            b
        }
    }
}


pub open spec fn title_set(name: Seq<char>) -> spec_fn(PadV, PadV) -> bool {
    |a: PadV, b: PadV| b == pad_restamp(PadV { title: name, ..a }, b)
}

pub open spec fn status_set(st: Seq<char>) -> spec_fn(PadV, PadV) -> bool {
    |a: PadV, b: PadV| b == pad_restamp(PadV { status: st, ..a }, b)
}

pub open spec fn pad_updated(name: Option<Seq<char>>, content: Option<Seq<char>>, tags: Option<Seq<Seq<char>>>) -> spec_fn(PadV, PadV) -> bool {
    |a: PadV, b: PadV|
        b == pad_restamp(
            PadV {
                title: match name {
                    Some(x) => x,
                    None => a.title,
                },
                content: match content {
                    Some(x) => x,
                    None => a.content,
                },
                tags: match tags {
                    Some(x) => x,
                    None => a.tags,
                },
                ..a
            },
            b,
        )
}

pub open spec fn appended_fn(more: Seq<char>, newline: bool) -> spec_fn(Seq<char>) -> Seq<char> {
    |c: Seq<char>| appended(c, more, newline)
}

pub open spec fn section_appended_fn(heading: Seq<char>, more: Seq<char>) -> spec_fn(Seq<char>) -> Seq<char> {
    |c: Seq<char>| section_appended(c, heading, more)
}

pub open spec fn edited_fn(kind: Seq<char>, heading: Seq<char>, offset: int, limit: int, text: Seq<char>) -> spec_fn(Seq<char>) -> Seq<char> {
    |c: Seq<char>| edited_body(c, kind, heading, offset, limit, text)
}

pub open spec fn cleared_fn() -> spec_fn(Seq<char>) -> Seq<char> {
    |c: Seq<char>| Seq::<char>::empty()
}

fn lines_vec_join(a: &Vec<Vec<char>>, from: usize, to: usize, out: &mut Vec<Vec<char>>)
    requires
        from <= to <= a.len(),
    ensures
        final(out).deep_view() == old(out).deep_view() + a.deep_view().subrange(from as int, to as int),
{
    let ghost o = out.deep_view();
    let mut k: usize = from;
    while k < to
        invariant
            from <= k <= to <= a.len(),
            out.deep_view() == o + a.deep_view().subrange(from as int, k as int),
        decreases to - k,
    {
        let ghost before = out.deep_view();
        let c = slice_chars(&a[k], 0, a[k].len());
        assert(c@ =~= a@[k as int]@);
        assert(a.deep_view()[k as int] == a@[k as int]@);
        out.push(c);
        assert(out.deep_view() =~= before.push(c@));
        assert(a.deep_view().subrange(from as int, k + 1) =~= a.deep_view().subrange(from as int, k as int).push(a.deep_view()[k as int]));
        assert(out.deep_view() =~= o + a.deep_view().subrange(from as int, k + 1));
        k += 1;
    }
}

impl Project {
    /// Every pad with this id can take one more revision and has a body
    /// whose lines an `i64` can count: what the pad operations ask of it.
    pub fn pad_room(&self, id: &str) -> (b: bool)
        ensures
            b == (revision_room(self@.pads, id@) && text_room(self@.pads, id@)),
    {
        let ghost ps = views(self.pads@);
        for i in 0..self.pads.len()
            invariant
                ps == views(self.pads@),
                forall|j: int| 0 <= j < i && #[trigger] ps[j].id == id@ ==> ps[j].revision < i64::MAX
                    && ps[j].content.len() < i64::MAX,
        {
            if crate::text::is_text(self.pads[i].id.as_str(), id) {
                let n = to_chars(self.pads[i].content.as_str()).len();
                if self.pads[i].revision == i64::MAX || n as u64 >= 0x7fff_ffff_ffff_ffffu64 {
                    assert(ps[i as int].id == id@);
                    return false;
                }
            }
        }
        true
    }

    /// The on-disk path of a scratchpad.
    pub fn pad_path(&self, id: &str) -> (r: String)
        ensures
            r@ == join_path(join_path(self.dir@, "scratchpads"@), pad_file(id@)),
    {
        join_path_exec(self.scratch_dir().as_str(), cat(id, ".md").as_str())
    }

    /// Bumps the revision of `s`, stamps it now by the actor, and stores it
    /// at `i`.
    fn commit_pad(&mut self, i: usize, s: Scratchpad) -> (r: Scratchpad)
        requires
            i < old(self).pads.len(),
            s@.revision < i64::MAX,
        ensures
            r@ == pad_restamp(s@, r@),
            r@.revision == s@.revision + 1,
            is_stamp(r@.updated),
            r@.updated_by == old(self)@.actor,
            final(self)@.pads == old(self)@.pads.update(i as int, r@),
            same_but_pads(old(self)@, final(self)@),
    {
        let mut s = s;
        s.revision = s.revision + 1;
        s.updated = now();
        s.updated_by = dup(&self.actor);
        let out = s.copy();
        let ghost before = views(self.pads@);
        self.pads.set(i, s);
        assert(views(self.pads@) =~= before.update(i as int, out@));
        out
    }

    /// Finds the pad and checks the expected revision (negative skips it).
    fn guarded_pad(&self, id: &str, exp_rev: i64) -> (r: Result<usize>)
        ensures
            !has_pad(self@.pads, id@) ==> r matches Err(Error::NotFound),
            has_pad(self@.pads, id@) && exp_rev >= 0 && self@.pads[first_pad(self@.pads, id@)].revision != exp_rev
                ==> r matches Err(Error::RevisionMismatch),
            has_pad(self@.pads, id@) && !(exp_rev >= 0 && self@.pads[first_pad(self@.pads, id@)].revision != exp_rev)
                ==> (r matches Ok(i) && i == first_pad(self@.pads, id@) && i < self.pads.len()
                && (revision_room(self@.pads, id@) ==> self@.pads[i as int].revision < i64::MAX)),
    {
        let i = match find_pad(&self.pads, id) {
            None => return Err(Error::NotFound),
            Some(i) => i,
        };
        if exp_rev >= 0 && self.pads[i].revision != exp_rev {
            return Err(Error::RevisionMismatch);
        }
        assert(views(self.pads@)[i as int].id == id@);
        Ok(i)
    }

    /// A new pad; an empty name takes the body's first H1.
    pub fn create_scratchpad(&mut self, name: &str, content: &str, tags: Vec<String>) -> (r: Result<Scratchpad>)
        ensures
            r matches Ok(s) && fresh_pad(
                s@,
                if name@.len() == 0 { first_h1(content@) } else { name@ },
                content@,
                tags.deep_view(),
                old(self)@.actor,
            ) && final(self)@.pads == old(self)@.pads.push(s@),
            same_but_pads(old(self)@, final(self)@),
    {
        let title = if is_blank(name) {
            first_h1_exec(content)
        } else {
            from_chars(&to_chars(name))
        };
        let id = self.fresh_id("s_");
        let s = Scratchpad {
            id,
            title,
            tags,
            status: from_chars(&to_chars("active")),
            revision: 1,
            created: now(),
            updated: now(),
            created_by: dup(&self.actor),
            updated_by: dup(&self.actor),
            content: from_chars(&to_chars(content)),
        };
        let ghost before = views(self.pads@);
        let cp = s.copy();
        self.pads.push(cp);
        assert(views(self.pads@) =~= before.push(s@));
        Ok(s)
    }

    /// The pad and a view of its text. mode: "headings" | "section" |
    /// anything else for the whole body.
    pub fn read_scratchpad(&self, id: &str, mode: &str, section_heading: &str, offset: i64, limit: i64) -> (r: Result<(Scratchpad, String)>)
        ensures
            !has_pad(self@.pads, id@) ==> r matches Err(Error::NotFound),
            has_pad(self@.pads, id@) ==> (r matches Ok(x) && x.0@ == self@.pads[first_pad(self@.pads, id@)]
                && x.1@ == read_view(x.0@.content, mode@, section_heading@, offset as int, limit as int)),
    {
        let i = match find_pad(&self.pads, id) {
            None => return Err(Error::NotFound),
            Some(i) => i,
        };
        let s = self.pads[i].copy();
        let mut text = if is_text_eq(mode, "headings") {
            headings_of(s.content.as_str())
        } else if is_text_eq(mode, "section") {
            section_of(s.content.as_str(), section_heading)
        } else {
            dup(&s.content)
        };
        if offset > 0 || limit > 0 {
            text = line_window(text.as_str(), offset, limit);
        }
        Ok((s, text))
    }

    /// Pads with the given tags and query (archived ones only when asked),
    /// newest-updated first, without their bodies.
    pub fn list_scratchpads(&self, tags: &Vec<String>, query: &str, include_archived: bool, offset: i64, limit: i64) -> (r: Result<Vec<Scratchpad>>)
        ensures
            r matches Ok(v) && views(v@) == pads_listed(self@.pads, tags.deep_view(), query@, include_archived, offset as int, limit as int),
    {
        let mut all: Vec<Scratchpad> = Vec::new();
        for i in 0..self.pads.len()
            invariant
                views(all@) == views(self.pads@).take(i as int),
        {
            let ghost before = views(all@);
            let c = self.pads[i].copy();
            all.push(c);
            assert(views(all@) =~= before.push(c@));
            assert(views(all@) =~= views(self.pads@).take(i + 1));
        }
        assert(views(self.pads@).take(self.pads.len() as int) =~= views(self.pads@));
        let by_name = sort_stable(all, 0);
        let ghost bn = views(by_name@);
        let ghost p = pad_listed_fn(tags.deep_view(), query@, include_archived);
        let ghost f = |x: PadV| without_body(x);
        let mut shown: Vec<Scratchpad> = Vec::new();
        for i in 0..by_name.len()
            invariant
                bn == views(by_name@),
                p == pad_listed_fn(tags.deep_view(), query@, include_archived),
                f == (|x: PadV| without_body(x)),
                views(shown@) == keep(bn.take(i as int), p).map_values(f),
        {
            proof {
                lemma_keep_step(bn, i as int, p);
            }
            if pad_listed_exec(&by_name[i], tags, query, include_archived) {
                let ghost before = views(shown@);
                let mut c = by_name[i].copy();
                c.content = String::new();
                shown.push(c);
                assert(views(shown@) =~= before.push(f(bn[i as int])));
                assert(keep(bn.take(i as int), p).push(bn[i as int]).map_values(f) =~= keep(bn.take(i as int), p).map_values(f).push(f(bn[i as int])));
            }
        }
        proof {
            lemma_keep_all(bn, p);
        }
        let sorted = sort_stable(shown, 1);
        Ok(page(sorted, offset, limit))
    }

    pub fn update_scratchpad(&mut self, id: &str, exp_rev: i64, name: Option<&str>, content: Option<&str>, tags: Option<Vec<String>>) -> (r: Result<Scratchpad>)
        requires
            revision_room(old(self)@.pads, id@),
        ensures
            pad_outcome(
                old(self)@,
                final(self)@,
                id@,
                exp_rev as int,
                r,
                pad_never_refused(),
                pad_updated(opt_str_view(name), opt_str_view(content), tags.deep_view()),
            ),
    {
        let i = match self.guarded_pad(id, exp_rev) {
            Err(e) => return Err(e),
            Ok(i) => i,
        };
        let mut s = self.pads[i].copy();
        match name {
            Some(v) => {
                s.title = from_chars(&to_chars(v));
            },
            None => {},
        }
        match content {
            Some(v) => {
                s.content = from_chars(&to_chars(v));
            },
            None => {},
        }
        match tags {
            Some(v) => {
                s.tags = v;
            },
            None => {},
        }
        Ok(self.commit_pad(i, s))
    }

    pub fn rename_scratchpad(&mut self, id: &str, name: &str, exp_rev: i64) -> (r: Result<Scratchpad>)
        requires
            revision_room(old(self)@.pads, id@),
        ensures
            pad_outcome(old(self)@, final(self)@, id@, exp_rev as int, r, pad_never_refused(), title_set(name@)),
    {
        let i = match self.guarded_pad(id, exp_rev) {
            Err(e) => return Err(e),
            Ok(i) => i,
        };
        let mut s = self.pads[i].copy();
        s.title = from_chars(&to_chars(name));
        Ok(self.commit_pad(i, s))
    }

    fn set_pad_status(&mut self, id: &str, status: &str, exp_rev: i64) -> (r: Result<Scratchpad>)
        requires
            revision_room(old(self)@.pads, id@),
        ensures
            pad_outcome(old(self)@, final(self)@, id@, exp_rev as int, r, pad_never_refused(), status_set(status@)),
    {
        let i = match self.guarded_pad(id, exp_rev) {
            Err(e) => return Err(e),
            Ok(i) => i,
        };
        let mut s = self.pads[i].copy();
        s.status = from_chars(&to_chars(status));
        Ok(self.commit_pad(i, s))
    }

    pub fn archive_scratchpad(&mut self, id: &str, exp_rev: i64) -> (r: Result<Scratchpad>)
        requires
            revision_room(old(self)@.pads, id@),
        ensures
            pad_outcome(old(self)@, final(self)@, id@, exp_rev as int, r, pad_never_refused(), status_set("archived"@)),
    {
        self.set_pad_status(id, "archived", exp_rev)
    }

    pub fn unarchive_scratchpad(&mut self, id: &str, exp_rev: i64) -> (r: Result<Scratchpad>)
        requires
            revision_room(old(self)@.pads, id@),
        ensures
            pad_outcome(old(self)@, final(self)@, id@, exp_rev as int, r, pad_never_refused(), status_set("active"@)),
    {
        self.set_pad_status(id, "active", exp_rev)
    }

    /// Deletes the pad (revision-guarded) and, on success, the comments on it.
    pub fn delete_scratchpad(&mut self, id: &str, exp_rev: i64) -> (r: Result<()>)
        ensures
            !has_pad(old(self)@.pads, id@) ==> (r matches Err(Error::NotFound) && final(self)@ == old(self)@),
            has_pad(old(self)@.pads, id@) && exp_rev >= 0
                && old(self)@.pads[first_pad(old(self)@.pads, id@)].revision != exp_rev
                ==> (r matches Err(Error::RevisionMismatch) && final(self)@ == old(self)@),
            has_pad(old(self)@.pads, id@) && !(exp_rev >= 0
                && old(self)@.pads[first_pad(old(self)@.pads, id@)].revision != exp_rev)
                ==> (r is Ok && final(self)@.pads == old(self)@.pads.remove(first_pad(old(self)@.pads, id@))
                && final(self)@.comments == keep(old(self)@.comments, off_target(norm_target(id@)))),
            final(self)@.path == old(self)@.path,
            final(self)@.name == old(self)@.name,
            final(self)@.dir == old(self)@.dir,
            final(self)@.actor == old(self)@.actor,
            final(self)@.todos == old(self)@.todos,
    {
        let i = match self.guarded_pad(id, exp_rev) {
            Err(e) => return Err(e),
            Ok(i) => i,
        };
        let ghost before = views(self.pads@);
        let _gone = self.pads.remove(i);
        assert(views(self.pads@) =~= before.remove(i as int));
        let _ = self.delete_comments_for_target(id);
        Ok(())
    }

    /// Appends text; with `newline`, a newline goes first when the body is
    /// non-empty and does not already end in one.
    pub fn append_scratchpad(&mut self, id: &str, content: &str, exp_rev: i64, newline: bool) -> (r: Result<Scratchpad>)
        requires
            revision_room(old(self)@.pads, id@),
        ensures
            pad_outcome(old(self)@, final(self)@, id@, exp_rev as int, r, pad_never_refused(), body_set(appended_fn(content@, newline))),
    {
        let i = match self.guarded_pad(id, exp_rev) {
            Err(e) => return Err(e),
            Ok(i) => i,
        };
        let mut s = self.pads[i].copy();
        let cur = to_chars(s.content.as_str());
        let body = if newline && cur.len() > 0 && !ends_with_chars(&cur, &to_chars("\n")) {
            cat(cat(s.content.as_str(), "\n").as_str(), content)
        } else {
            cat(s.content.as_str(), content)
        };
        s.content = body;
        Ok(self.commit_pad(i, s))
    }

    /// Appends text at the end of a section; NotFound when there is no such
    /// section.
    pub fn append_section(&mut self, id: &str, heading: &str, content: &str, exp_rev: i64) -> (r: Result<Scratchpad>)
        requires
            revision_room(old(self)@.pads, id@),
        ensures
            pad_outcome(old(self)@, final(self)@, id@, exp_rev as int, r, section_check(heading@), body_set(section_appended_fn(heading@, content@))),
    {
        let i = match self.guarded_pad(id, exp_rev) {
            Err(e) => return Err(e),
            Ok(i) => i,
        };
        let mut s = self.pads[i].copy();
        let sec = section_of(s.content.as_str(), heading);
        if is_blank(sec.as_str()) {
            return Err(Error::NotFound);
        }
        let trimmed = trim_newlines_end(&to_chars(sec.as_str()));
        let new_sec = cat(cat(from_chars(&trimmed).as_str(), "\n").as_str(), content);
        s.content = replace_first_exec(s.content.as_str(), sec.as_str(), new_sec.as_str());
        Ok(self.commit_pad(i, s))
    }

    /// Replaces a section (keeping its heading unless the new text starts
    /// with one) or a range of lines.
    pub fn edit_scratchpad(&mut self, id: &str, target: EditTarget, content: &str, exp_rev: i64) -> (r: Result<Scratchpad>)
        requires
            revision_room(old(self)@.pads, id@),
        ensures
            pad_outcome(
                old(self)@,
                final(self)@,
                id@,
                exp_rev as int,
                r,
                edit_check(target.kind@, target.section_heading@, target.offset as int, target.limit as int),
                body_set(edited_fn(target.kind@, target.section_heading@, target.offset as int, target.limit as int, content@)),
            ),
    {
        let i = match self.guarded_pad(id, exp_rev) {
            Err(e) => return Err(e),
            Ok(i) => i,
        };
        let mut s = self.pads[i].copy();
        if is_text_eq(target.kind.as_str(), "section") {
            let sec = section_of(s.content.as_str(), target.section_heading.as_str());
            if is_blank(sec.as_str()) {
                return Err(Error::NotFound);
            }
            let repl = if heading_text(content).is_some() {
                from_chars(&to_chars(content))
            } else {
                cat(cat(first_line(sec.as_str()).as_str(), "\n").as_str(), content)
            };
            s.content = replace_first_exec(s.content.as_str(), sec.as_str(), repl.as_str());
        } else if is_text_eq(target.kind.as_str(), "line_range") {
            let lines = lines_exec(s.content.as_str());
            let n = lines.len() as u64;
            if target.offset < 0 || target.limit < 0 || target.offset as u64 > n || target.limit as u64 > n - target.offset as u64 {
                return Err(Error::Other(from_chars(&to_chars("line range out of bounds"))));
            }
            let off = target.offset as usize;
            let end = off + target.limit as usize;
            let mut out: Vec<Vec<char>> = Vec::new();
            lines_vec_join(&lines, 0, off, &mut out);
            let mid = lines_exec(content);
            lines_vec_join(&mid, 0, mid.len(), &mut out);
            lines_vec_join(&lines, end, lines.len(), &mut out);
            proof {
                let ls = lines.deep_view();
                assert(ls.subrange(0, off as int) =~= ls.take(off as int));
                assert(mid.deep_view().subrange(0, mid.len() as int) =~= mid.deep_view());
                assert(ls.subrange(end as int, ls.len() as int) =~= ls.skip(end as int));
            }
            s.content = join_lines_exec(&out);
        } else {
            return Err(Error::Other(cat("unknown edit target ", debug_str(target.kind.as_str()).as_str())));
        }
        Ok(self.commit_pad(i, s))
    }

    /// Lines matching a query (case-insensitively unless asked), each with
    /// `context_lines` lines around it; scope "headings" searches heading
    /// lines only.
    pub fn find_in_scratchpad(&self, id: &str, query: &str, scope: &str, case_sensitive: bool, context_lines: i64) -> (r: Result<Vec<Match>>)
        requires
            text_room(self@.pads, id@),
        ensures
            !has_pad(self@.pads, id@) ==> r matches Err(Error::NotFound),
            has_pad(self@.pads, id@) ==> (r matches Ok(v) && v@.map_values(|m: Match| match_view(m)) == found_in(
                self@.pads[first_pad(self@.pads, id@)].content,
                query@,
                scope@,
                case_sensitive,
                context_lines as int,
            )),
    {
        let i = match find_pad(&self.pads, id) {
            None => return Err(Error::NotFound),
            Some(i) => i,
        };
        let needle = if case_sensitive { to_chars(query) } else { to_chars(to_lower(query).as_str()) };
        let lines = lines_exec(self.pads[i].content.as_str());
        let ghost ls = lines.deep_view();
        proof {
            assert(views(self.pads@)[i as int].id == id@);
            lemma_split_len(self.pads[i as int].content@, '\n');
        }
        assert(lines.len() <= i64::MAX);
        let headings_only = is_text_eq(scope, "headings");
        let len = lines.len() as i128;
        let ctx = context_lines as i128;
        let mut out: Vec<Match> = Vec::new();
        let mut k: usize = 0;
        while k < lines.len()
            invariant
                0 <= k <= lines.len(),
                lines.len() <= i64::MAX,
                ls == lines.deep_view(),
                len == lines.len(),
                ctx == context_lines,
                headings_only == (scope@ == "headings"@),
                needle@ == (if case_sensitive { query@ } else { lower(query@) }),
                out@.map_values(|m: Match| match_view(m)) == hits_upto(ls, needle@, scope@, case_sensitive, ctx as int, k as int),
            decreases lines.len() - k,
        {
            let ghost prev = out@.map_values(|m: Match| match_view(m));
            assert(ls[k as int] == lines@[k as int]@);
            let line = from_chars(&lines[k]);
            let in_scope = !headings_only || heading_text(line.as_str()).is_some();
            let hay = if case_sensitive { to_chars(line.as_str()) } else { to_chars(to_lower(line.as_str()).as_str()) };
            if in_scope && contains_chars(&hay, &needle) {
                let ki = k as i128;
                let lo_i = if ki - ctx < 0 { 0 } else if ki - ctx > len { len } else { ki - ctx };
                let hi_i = if ki + ctx + 1 < lo_i { lo_i } else if ki + ctx + 1 > len { len } else { ki + ctx + 1 };
                let lo = lo_i as usize;
                let hi = hi_i as usize;
                let mut ctx_lines: Vec<Vec<char>> = Vec::new();
                lines_vec_join(&lines, lo, hi, &mut ctx_lines);
                assert(ctx_lines.deep_view() =~= ls.subrange(lo as int, hi as int));
                let m = Match { line: k as i64, text: dup(&line), context: join_lines_exec(&ctx_lines) };
                assert(match_view(m) == match_at(ls, k as int, ctx as int));
                let ghost o = out@;
                out.push(m);
                assert(out@ == o.push(m));
                assert(out@.map_values(|m: Match| match_view(m)) =~= o.map_values(|m: Match| match_view(m)).push(match_view(m)));
            } else {
                assert(out@.map_values(|m: Match| match_view(m)) =~= prev);
            }
            k += 1;
        }
        Ok(out)
    }

    /// The last `lines` lines of the pad and its line count.
    pub fn tail_scratchpad(&self, id: &str, lines: i64) -> (r: Result<(String, i64)>)
        requires
            text_room(self@.pads, id@),
        ensures
            !has_pad(self@.pads, id@) ==> r matches Err(Error::NotFound),
            has_pad(self@.pads, id@) ==> (r matches Ok(x) && (x.0@, x.1 as int) == tail_of(
                self@.pads[first_pad(self@.pads, id@)].content,
                lines as int,
            )),
    {
        let i = match find_pad(&self.pads, id) {
            None => return Err(Error::NotFound),
            Some(i) => i,
        };
        let trimmed = trim_newlines_end(&to_chars(self.pads[i].content.as_str()));
        let all = lines_exec(from_chars(&trimmed).as_str());
        proof {
            assert(views(self.pads@)[i as int].id == id@);
            lemma_split_len(trimmed@, '\n');
            assert(self@.pads[i as int].content.len() < i64::MAX);
            crate::text::lemma_trail_len(self@.pads[i as int].content, |c: char| is_newline(c));
            assert(trimmed@.len() <= self@.pads[i as int].content.len());
        }
        assert(all.len() <= i64::MAX);
        let total = all.len() as i64;
        if lines <= 0 {
            return Ok((String::new(), total));
        }
        let start: usize = if lines < total { (total - lines) as usize } else { 0 };
        let mut out: Vec<Vec<char>> = Vec::new();
        lines_vec_join(&all, start, all.len(), &mut out);
        assert(out.deep_view() =~= all.deep_view().skip(start as int));
        Ok((join_lines_exec(&out), total))
    }

    pub fn clear_scratchpad(&mut self, id: &str, exp_rev: i64) -> (r: Result<Scratchpad>)
        requires
            revision_room(old(self)@.pads, id@),
        ensures
            pad_outcome(old(self)@, final(self)@, id@, exp_rev as int, r, pad_never_refused(), body_set(cleared_fn())),
    {
        let i = match self.guarded_pad(id, exp_rev) {
            Err(e) => return Err(e),
            Ok(i) => i,
        };
        let mut s = self.pads[i].copy();
        s.content = String::new();
        Ok(self.commit_pad(i, s))
    }

    /// Every tag on any pad (archived ones included), ascending, each once.
    pub fn scratchpad_tags(&self) -> (r: Result<Vec<String>>)
        ensures
            r matches Ok(v) && ascending(v.deep_view())
                && forall|y: Seq<char>| v.deep_view().contains(y) <==> pad_tagged(self@.pads, y),
    {
        let ghost ps = views(self.pads@);
        let mut out: Vec<String> = Vec::new();
        for i in 0..self.pads.len()
            invariant
                ps == views(self.pads@),
                ascending(out.deep_view()),
                forall|y: Seq<char>| out.deep_view().contains(y) <==> pad_tagged(ps.take(i as int), y),
        {
            let tags = &self.pads[i].tags;
            let ghost mid = out.deep_view();
            insert_all_sorted(&mut out, tags);
            assert(forall|y: Seq<char>| out.deep_view().contains(y) <==> (mid.contains(y) || tags.deep_view().contains(y)));
            assert(tags.deep_view() == ps[i as int].tags);
            assert forall|y: Seq<char>| out.deep_view().contains(y) <==> pad_tagged(ps.take(i + 1), y) by {
                let t1 = ps.take(i + 1);
                assert(out.deep_view().contains(y) <==> (mid.contains(y) || tags.deep_view().contains(y)));
                assert(mid.contains(y) <==> pad_tagged(ps.take(i as int), y));
                if pad_tagged(t1, y) {
                    let j = choose|j: int| 0 <= j < t1.len() && #[trigger] t1[j].tags.contains(y);
                    assert(t1[j] == ps[j]);
                    if j < i {
                        assert(ps.take(i as int)[j].tags.contains(y));
                    }
                }
                if pad_tagged(ps.take(i as int), y) {
                    let j = choose|j: int| 0 <= j < i && #[trigger] ps.take(i as int)[j].tags.contains(y);
                    assert(t1[j].tags.contains(y));
                }
                if ps[i as int].tags.contains(y) {
                    assert(t1[i as int].tags.contains(y));
                }
            }
        }
        assert(ps.take(self.pads.len() as int) =~= ps);
        Ok(out)
    }

    /// The markdown a pad is saved to a file as.
    pub fn export_scratchpad(&self, id: &str) -> (r: Result<String>)
        ensures
            !has_pad(self@.pads, id@) ==> r matches Err(Error::NotFound),
            has_pad(self@.pads, id@) ==> (r matches Ok(t) && t@ == exported(self@.pads[first_pad(self@.pads, id@)])),
    {
        let i = match find_pad(&self.pads, id) {
            None => return Err(Error::NotFound),
            Some(i) => i,
        };
        let s = &self.pads[i];
        if is_blank(first_h1_exec(s.content.as_str()).as_str()) {
            Ok(cat(cat(cat("# ", s.title.as_str()).as_str(), "\n\n").as_str(), s.content.as_str()))
        } else {
            Ok(dup(&s.content))
        }
    }

    /// Where an outside file path points: absolute paths as they are,
    /// relative ones under the project root.
    pub fn resolve_external(&self, path: &str) -> (r: String)
        ensures
            r@ == join_path(self@.path, path@),
    {
        join_path_exec(self.path.as_str(), path)
    }

    /// Creates a pad from a markdown file's path and text: the first H1 is
    /// the title, else the file name without ".md".
    pub fn import_scratchpad(&mut self, path: &str, content: &str) -> (r: Result<Scratchpad>)
        ensures
            r matches Ok(s) && fresh_pad(s@, import_title(path@, content@), content@, Seq::empty(), old(self)@.actor)
                && final(self)@.pads == old(self)@.pads.push(s@),
            same_but_pads(old(self)@, final(self)@),
    {
        proof {
            reveal_strlit(".md");
        }
        let h = first_h1_exec(content);
        let name = if !is_blank(h.as_str()) {
            h
        } else {
            let b = base_name_exec(path);
            let bv = to_chars(b.as_str());
            if ends_with_chars(&bv, &to_chars(".md")) {
                let cut = slice_chars(&bv, 0, bv.len() - 3);
                assert(cut@ =~= bv@.take(bv@.len() - 3));
                from_chars(&cut)
            } else {
                b
            }
        };
        assert(name@ == import_title(path@, content@));
        assert(name@.len() == 0 ==> first_h1(content@).len() == 0);
        let tags: Vec<String> = Vec::new();
        assert(tags.deep_view() =~= Seq::<Seq<char>>::empty());
        let r = self.create_scratchpad(name.as_str(), content, tags);
        match &r {
            Ok(s) => {
                assert(s@.title == import_title(path@, content@));
                assert(s@.tags == Seq::<Seq<char>>::empty());
            },
            Err(_) => {},
        }
        r
    }
}

fn is_text_eq(a: &str, b: &str) -> (r: bool)
    ensures
        r == (a@ == b@),
{
    eq_chars(&to_chars(a), &to_chars(b))
}

fn trim_newlines_end(v: &Vec<char>) -> (r: Vec<char>)
    ensures
        r@ == trim_end_by(v@, |c: char| is_newline(c)),
{
    let ghost p = |c: char| is_newline(c);
    let mut b: usize = v.len();
    while b > 0 && v[b - 1] == '\n'
        invariant
            b <= v.len(),
            forall|j: int| b <= j < v.len() ==> is_newline(v@[j]),
        decreases b,
    {
        b -= 1;
    }
    proof {
        lemma_trail_len_is(v@, p, (v.len() - b) as int);
        assert(v@.take(b as int) =~= v@.subrange(0, b as int));
    }
    slice_chars(v, 0, b)
}

fn pad_listed_exec(p: &Scratchpad, tags: &Vec<String>, query: &str, include_archived: bool) -> (b: bool)
    ensures
        b == pad_listed(p@, tags.deep_view(), query@, include_archived),
{
    if is_text_eq(p.status.as_str(), "archived") && !include_archived {
        return false;
    }
    if tags.len() > 0 && !has_all_tags(&p.tags, tags) {
        return false;
    }
    if !is_blank(query) {
        let hay = to_lower(cat(cat(p.title.as_str(), " ").as_str(), p.content.as_str()).as_str());
        if !contains_chars(&to_chars(hay.as_str()), &to_chars(to_lower(query).as_str())) {
            return false;
        }
    }
    true
}

/// The view of an optional string argument.
pub open spec fn opt_str_view(o: Option<&str>) -> Option<Seq<char>> {
    match o {
        Some(s) => Some(s@),
        None => None,
    }
}

} // verus!
