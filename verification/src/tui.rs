//! The terminal UI's pure parts: tabs and modes, the detail row's text and
//! its click geometry, list-row layout, and the priority cycle.
use vstd::prelude::*;
use crate::clock::{humanized, humanize_since};
use crate::num::dec_digits;
use crate::text::{to_chars, from_chars, cat, dup, is_blank, upper, to_upper, eq_chars, join_with, join_strings};
use crate::order::{keep, lemma_keep_step, lemma_keep_all, views};
use crate::comments::{Comment, CommentV};
use crate::scratchpads::{norm_heading, norm_heading_exec, Scratchpad, PadV};
use crate::todos::{Todo, TodoV};
use crate::text::{lower, to_lower, contains_seq, contains_chars};

verus! {

#[derive(Clone, Copy, PartialEq, Eq, Debug)]
pub enum Tab {
    Todos,
    Scratchpads,
    Plans,
}

impl Tab {
    /// The tab's position in the tab bar.
    pub fn idx(self) -> (r: usize)
        ensures
            r == tab_index(self),
    {
        match self {
            Tab::Todos => 0,
            Tab::Scratchpads => 1,
            Tab::Plans => 2,
        }
    }
}

pub open spec fn tab_index(t: Tab) -> usize {
    match t {
        Tab::Todos => 0,
        Tab::Scratchpads => 1,
        Tab::Plans => 2,
    }
}

#[derive(Clone, Copy, PartialEq, Eq, Debug)]
pub enum Mode {
    List,
    Read,
    Confirm,
    Edit,
    DiscardConfirm,
    Filter,
}

#[derive(Clone, Copy, PartialEq, Eq, Debug)]
pub enum Focus {
    Title,
    Body,
}

/// low → medium → high → low; anything unrecognized goes to medium.
pub open spec fn next_prio(cur: Seq<char>) -> Seq<char> {
    if cur == "low"@ {
        "medium"@
    } else if cur == "medium"@ {
        "high"@
    } else if cur == "high"@ {
        "low"@
    } else {
        "medium"@
    }
}

pub fn next_priority(cur: &str) -> (r: &'static str)
    ensures
        r@ == next_prio(cur@),
{
    if eq_chars(&to_chars(cur), &to_chars("low")) {
        "medium"
    } else if eq_chars(&to_chars(cur), &to_chars("medium")) {
        "high"
    } else if eq_chars(&to_chars(cur), &to_chars("high")) {
        "low"
    } else {
        "medium"
    }
}

// ------------------------------------------------------------ the tab bar
pub open spec fn tab_label(i: int) -> Seq<char> {
    if i == 0 {
        "1 Todos"@
    } else if i == 1 {
        "2 Scratchpads"@
    } else {
        "3 Plans"@
    }
}

/// The tab bar's text: two spaces, then the labels four spaces apart.
pub open spec fn tab_bar() -> Seq<char> {
    "  "@ + tab_label(0) + "    "@ + tab_label(1) + "    "@ + tab_label(2)
}

/// Column ranges (start, exclusive end) of the three tab labels, derived
/// from the labels' lengths.
pub open spec fn tab_range(i: int) -> (int, int) {
    let s0: int = 2;
    let e0: int = s0 + tab_label(0).len();
    let s1 = e0 + 4;
    let e1: int = s1 + tab_label(1).len();
    let s2: int = e1 + 4;
    let e2: int = s2 + tab_label(2).len();
    if i == 0 {
        (s0, e0)
    } else if i == 1 {
        (s1, e1)
    } else {
        (s2, e2)
    }
}

fn char_count(s: &str) -> (n: usize)
    ensures
        n == s@.len(),
{
    to_chars(s).len()
}

pub fn tab_ranges() -> (r: [(u16, u16); 3])
    ensures
        forall|i: int| 0 <= i < 3 ==> (r@[i].0 as int, r@[i].1 as int) == #[trigger] tab_range(i),
{
    proof {
        reveal_strlit("1 Todos");
        reveal_strlit("2 Scratchpads");
        reveal_strlit("3 Plans");
        reveal_strlit("  ");
        reveal_strlit("    ");
    }
    let labels: [&str; 3] = ["1 Todos", "2 Scratchpads", "3 Plans"];
    let mut out: [(u16, u16); 3] = [(0u16, 0u16); 3];
    let mut x: u16 = char_count("  ") as u16;
    let gap: u16 = char_count("    ") as u16;
    let mut i: usize = 0;
    while i < 3
        invariant
            0 <= i <= 3,
            gap == 4,
            labels@[0]@ == tab_label(0),
            labels@[1]@ == tab_label(1),
            labels@[2]@ == tab_label(2),
            tab_label(0).len() == 7,
            tab_label(1).len() == 13,
            tab_label(2).len() == 7,
            x as int == if i == 0 { 2 } else { tab_range(i - 1).1 + 4 },
            forall|j: int| 0 <= j < i ==> (out@[j].0 as int, out@[j].1 as int) == #[trigger] tab_range(j),
        decreases 3 - i,
    {
        let n = char_count(labels[i]) as u16;
        out[i] = (x, x + n);
        x = x + n + gap;
        i += 1;
    }
    out
}

/// The label of tab `i`.
pub fn tab_label_text(i: usize) -> (r: &'static str)
    requires
        i < 3,
    ensures
        r@ == tab_label(i as int),
{
    if i == 0 {
        "1 Todos"
    } else if i == 1 {
        "2 Scratchpads"
    } else {
        "3 Plans"
    }
}

/// The tab bar as drawn: the prefix, then the labels with the gap between.
pub fn tab_bar_text() -> (r: String)
    ensures
        r@ == tab_bar(),
{
    let a = cat("  ", tab_label_text(0));
    let b = cat(a.as_str(), "    ");
    let c = cat(b.as_str(), tab_label_text(1));
    let d = cat(c.as_str(), "    ");
    cat(d.as_str(), tab_label_text(2))
}

/// Does the bar's text show label `i` exactly over its range?
pub proof fn tab_ranges_match_bar()
    ensures
        forall|i: int| 0 <= i < 3 ==> tab_bar().subrange(#[trigger] tab_range(i).0, tab_range(i).1) == tab_label(i),
{
    reveal_strlit("1 Todos");
    reveal_strlit("2 Scratchpads");
    reveal_strlit("3 Plans");
    reveal_strlit("  ");
    reveal_strlit("    ");
    let bar = tab_bar();
    assert(bar.subrange(tab_range(0).0, tab_range(0).1) =~= tab_label(0));
    assert(bar.subrange(tab_range(1).0, tab_range(1).1) =~= tab_label(1));
    assert(bar.subrange(tab_range(2).0, tab_range(2).1) =~= tab_label(2));
}

// ------------------------------------------------------------ the meta row
/// The detail view's status/priority row: "○ status   ‖ PRIORITY".
pub open spec fn meta_text(status: Seq<char>, priority: Seq<char>) -> Seq<char> {
    "○ "@ + status + "   ‖ "@ + upper(priority)
}

pub fn meta_line(status: &str, priority: &str) -> (r: String)
    ensures
        r@ == meta_text(status@, priority@),
{
    cat(cat(cat("○ ", status).as_str(), "   ‖ ").as_str(), to_upper(priority).as_str())
}

/// (status_end, prio_start, prio_end) as columns within the meta row.
pub open spec fn meta_cols(status: Seq<char>, priority: Seq<char>) -> (int, int, int) {
    let status_end: int = 2 + status.len() as int;
    let prio_start: int = status_end + 3;
    let prio_end: int = prio_start + 2 + priority.len();
    (status_end, prio_start, prio_end)
}

pub fn meta_segments(status: &str, priority: &str) -> (r: (u16, u16, u16))
    requires
        status@.len() + priority@.len() + 7 <= u16::MAX,
    ensures
        (r.0 as int, r.1 as int, r.2 as int) == meta_cols(status@, priority@),
{
    let status_end = (2 + char_count(status)) as u16;
    let prio_start = status_end + 3;
    let prio_end = prio_start + (2 + char_count(priority)) as u16;
    (status_end, prio_start, prio_end)
}

/// The segments cover the row: the status segment is "○ status", the
/// priority segment "‖ PRIORITY", and it ends where the row ends (when
/// upper-casing keeps the priority's length, as it does for the stored
/// lower-case values).
pub proof fn meta_segments_match_line(status: Seq<char>, priority: Seq<char>)
    requires
        upper(priority).len() == priority.len(),
    ensures
        ({
            let (se, ps, pe) = meta_cols(status, priority);
            &&& meta_text(status, priority).subrange(0, se) == "○ "@ + status
            &&& meta_text(status, priority).subrange(ps, pe) == "‖ "@ + upper(priority)
            &&& pe == meta_text(status, priority).len()
        }),
{
    reveal_strlit("○ ");
    reveal_strlit("   ‖ ");
    reveal_strlit("‖ ");
    let (se, ps, pe) = meta_cols(status, priority);
    let t = meta_text(status, priority);
    assert(t.subrange(0, se) =~= "○ "@ + status);
    assert(t.subrange(ps, pe) =~= "‖ "@ + upper(priority));
}

/// "   · by X, 2m ago", or "   · by X, edited by Y 2m ago" when the creator
/// and the last editor differ; empty when neither is known.
pub open spec fn attribution_text(created_by: Seq<char>, updated_by: Seq<char>, updated: Seq<char>, now: int) -> Seq<char> {
    let creator = if created_by.len() == 0 { updated_by } else { created_by };
    let rel = humanized(updated, now);
    if creator.len() == 0 {
        Seq::empty()
    } else if created_by.len() > 0 && updated_by.len() > 0 && updated_by != created_by {
        "   · by "@ + created_by + ", edited by "@ + updated_by + " "@ + rel + " ago"@
    } else {
        "   · by "@ + creator + ", "@ + rel + " ago"@
    }
}

pub fn attribution(created_by: &str, updated_by: &str, updated: &str, now: u64) -> (r: String)
    ensures
        r@ == attribution_text(created_by@, updated_by@, updated@, now as int),
{
    let creator = if is_blank(created_by) { updated_by } else { created_by };
    if is_blank(creator) {
        return String::new();
    }
    let rel = humanize_since(updated, now);
    if !is_blank(created_by) && !is_blank(updated_by) && !eq_chars(&to_chars(updated_by), &to_chars(created_by)) {
        let a = cat(cat("   · by ", created_by).as_str(), ", edited by ");
        let b = cat(cat(cat(a.as_str(), updated_by).as_str(), " ").as_str(), rel.as_str());
        cat(b.as_str(), " ago")
    } else {
        let b = cat(cat(cat("   · by ", creator).as_str(), ", ").as_str(), rel.as_str());
        cat(b.as_str(), " ago")
    }
}

// ------------------------------------------------------------ click geometry
/// A screen rectangle.
#[derive(Clone, Copy, Debug, Default, PartialEq, Eq)]
pub struct Rect {
    pub x: u16,
    pub y: u16,
    pub width: u16,
    pub height: u16,
}

impl Rect {
    pub fn new(x: u16, y: u16, width: u16, height: u16) -> (r: Rect)
        ensures
            r == (Rect { x, y, width, height }),
    {
        Rect { x, y, width, height }
    }

    /// The column and row are inside (right and bottom edges saturate at the
    /// screen's limit).
    pub open spec fn holds(self, x: u16, y: u16) -> bool {
        &&& self.x <= x
        &&& x < sat_add(self.x, self.width)
        &&& self.y <= y
        &&& y < sat_add(self.y, self.height)
    }

    pub fn contains(&self, x: u16, y: u16) -> (b: bool)
        ensures
            b == self.holds(x, y),
    {
        x >= self.x && x < self.x.saturating_add(self.width) && y >= self.y && y < self.y.saturating_add(self.height)
    }
}

pub open spec fn sat_add(a: u16, b: u16) -> int {
    if a + b > u16::MAX {
        u16::MAX as int
    } else {
        a + b
    }
}

pub struct ListHits {
    pub area: Rect,
    /// First visible row index.
    pub offset: usize,
    pub len: usize,
}

/// Where the meta row was drawn and where its segments end.
pub struct MetaHits {
    pub x: u16,
    pub row: u16,
    pub status_end: u16,
    pub prio_start: u16,
    pub prio_end: u16,
}

impl MetaHits {
    pub fn new(x: u16, row: u16, status: &str, priority: &str) -> (m: MetaHits)
        requires
            status@.len() + priority@.len() + 7 <= u16::MAX,
        ensures
            m.x == x,
            m.row == row,
            (m.status_end as int, m.prio_start as int, m.prio_end as int) == meta_cols(status@, priority@),
    {
        let (status_end, prio_start, prio_end) = meta_segments(status, priority);
        MetaHits { x, row, status_end, prio_start, prio_end }
    }
}

#[derive(Clone, Copy, PartialEq, Eq, Debug)]
pub enum MetaSeg {
    Status,
    Priority,
}

/// Hit-test regions recorded by the last draw.
#[derive(Default)]
pub struct Hits {
    pub tab_row: u16,
    pub tabs: [(u16, u16); 3],
    pub list: Option<ListHits>,
    pub meta: Option<MetaHits>,
    pub title_card: Option<Rect>,
    pub body_card: Option<Rect>,
    /// Height of the read-mode body viewport.
    pub body_h: u16,
}

pub open spec fn tab_of(i: int) -> Tab {
    if i == 0 {
        Tab::Todos
    } else if i == 1 {
        Tab::Scratchpads
    } else {
        Tab::Plans
    }
}

/// The first tab whose range holds the column, on the tab row.
pub open spec fn tab_hit(tabs: Seq<(u16, u16)>, row: u16, x: u16, y: u16) -> Option<Tab> {
    if y != row {
        None
    } else if tabs[0].0 <= x && x < tabs[0].1 {
        Some(Tab::Todos)
    } else if tabs[1].0 <= x && x < tabs[1].1 {
        Some(Tab::Scratchpads)
    } else if tabs[2].0 <= x && x < tabs[2].1 {
        Some(Tab::Plans)
    } else {
        None
    }
}

/// The list item under a click: the row within the list area plus the
/// scroll offset, when that is an item.
pub open spec fn row_hit(l: Option<ListHits>, x: u16, y: u16) -> Option<usize> {
    match l {
        None => None,
        Some(h) => if !h.area.holds(x, y) {
            None
        } else {
            let i = (y - h.area.y) + h.offset;
            if i < h.len {
                Some(i as usize)
            } else {
                None
            }
        },
    }
}

/// The meta-row segment under a click.
pub open spec fn seg_hit(m: Option<MetaHits>, x: u16, y: u16) -> Option<MetaSeg> {
    match m {
        None => None,
        Some(h) => if y != h.row || x < h.x {
            None
        } else {
            let rel = x - h.x;
            if rel < h.status_end {
                Some(MetaSeg::Status)
            } else if rel >= h.prio_start && rel < h.prio_end {
                Some(MetaSeg::Priority)
            } else {
                None
            }
        },
    }
}

impl Hits {
    /// No regions recorded yet.
    pub fn empty() -> (h: Hits)
        ensures
            h.tab_row == 0,
            h.tabs@ == seq![(0u16, 0u16), (0u16, 0u16), (0u16, 0u16)],
            h.list is None,
            h.meta is None,
            h.title_card is None,
            h.body_card is None,
            h.body_h == 0,
    {
        Hits { tab_row: 0, tabs: [(0, 0), (0, 0), (0, 0)], list: None, meta: None, title_card: None, body_card: None, body_h: 0 }
    }

    pub fn tab_at(&self, x: u16, y: u16) -> (r: Option<Tab>)
        ensures
            r == tab_hit(self.tabs@, self.tab_row, x, y),
    {
        if y != self.tab_row {
            return None;
        }
        let tabs: [Tab; 3] = [Tab::Todos, Tab::Scratchpads, Tab::Plans];
        let mut i: usize = 0;
        while i < 3
            invariant
                0 <= i <= 3,
                y == self.tab_row,
                tabs@ == seq![Tab::Todos, Tab::Scratchpads, Tab::Plans],
                forall|j: int| 0 <= j < i ==> !(self.tabs@[j].0 <= x && x < self.tabs@[j].1),
            decreases 3 - i,
        {
            let (s, e) = self.tabs[i];
            if x >= s && x < e {
                return Some(tabs[i]);
            }
            i += 1;
        }
        None
    }

    pub fn list_row_at(&self, x: u16, y: u16) -> (r: Option<usize>)
        ensures
            r == row_hit(self.list, x, y),
    {
        let l = match &self.list {
            None => return None,
            Some(l) => l,
        };
        if !l.area.contains(x, y) {
            return None;
        }
        let row = (y - l.area.y) as usize;
        if row >= l.len {
            return None;
        }
        if l.offset >= l.len - row {
            return None;
        }
        let i = row + l.offset;
        Some(i)
    }

    pub fn meta_seg_at(&self, x: u16, y: u16) -> (r: Option<MetaSeg>)
        ensures
            r == seg_hit(self.meta, x, y),
    {
        let m = match &self.meta {
            None => return None,
            Some(m) => m,
        };
        if y != m.row || x < m.x {
            return None;
        }
        let rel = x - m.x;
        if rel < m.status_end {
            Some(MetaSeg::Status)
        } else if rel >= m.prio_start && rel < m.prio_end {
            Some(MetaSeg::Priority)
        } else {
            None
        }
    }
}

// ------------------------------------------------------------ list rows
pub open spec fn nonempty_text() -> spec_fn(Seq<char>) -> bool {
    |s: Seq<char>| s.len() > 0
}

/// The non-empty indicator segments, space-joined in order.
pub open spec fn cluster_text(parts: Seq<Seq<char>>) -> Seq<char> {
    join_with(keep(parts, nonempty_text()), " "@)
}

pub fn cluster(parts: &Vec<String>) -> (r: String)
    ensures
        r@ == cluster_text(parts.deep_view()),
{
    let ghost p = nonempty_text();
    let mut kept: Vec<String> = Vec::new();
    for i in 0..parts.len()
        invariant
            p == nonempty_text(),
            kept.deep_view() == keep(parts.deep_view().take(i as int), p),
    {
        proof {
            lemma_keep_step(parts.deep_view(), i as int, p);
        }
        if !is_blank(parts[i].as_str()) {
            let ghost before = kept.deep_view();
            let c = dup(&parts[i]);
            kept.push(c);
            assert(kept.deep_view() =~= before.push(c@));
        }
    }
    proof {
        lemma_keep_all(parts.deep_view(), p);
    }
    join_strings(&kept, " ")
}

/// How many terminal columns a text takes, as ratatui measures a line of it.
pub uninterp spec fn display_width(s: Seq<char>) -> nat;

/// `ratatui::text::Line::from(s).width()`.
#[verifier::external_body]
fn line_width(s: &str) -> (r: usize)
    ensures
        r == display_width(s@),
{
    ratatui::text::Line::from(s.to_string()).width()
}

pub open spec fn spaces(n: nat) -> Seq<char> {
    Seq::new(n, |i: int| ' ')
}

pub open spec fn sat_sub(a: int, b: int) -> int {
    if a > b {
        a - b
    } else {
        0
    }
}

/// `left` and `right` on one row of `width` columns, given their display
/// widths: `right` pinned to the right edge with at least one space between;
/// when they would overlap, `left` is cut to fit and ends in "…".
pub open spec fn right_aligned(left: Seq<char>, right: Seq<char>, width: int, lw: int, rw: int) -> Seq<char> {
    if right.len() == 0 {
        left
    } else {
        let avail = sat_sub(width, rw + 1);
        if lw <= avail {
            left + spaces(sat_sub(width, rw + lw) as nat) + right
        } else {
            let keep = sat_sub(avail, 1);
            left.take(if keep < left.len() { keep } else { left.len() as int }) + "… "@ + right
        }
    }
}

pub fn pad_right_aligned_widths(left: String, right: &str, width: usize, lw: usize, rw: usize) -> (r: String)
    requires
        rw + lw + 1 <= usize::MAX,
    ensures
        r@ == right_aligned(left@, right@, width as int, lw as int, rw as int),
{
    if is_blank(right) {
        return left;
    }
    let avail = width.saturating_sub(rw + 1);
    if lw <= avail {
        let pad = width.saturating_sub(rw + lw);
        let mut v = to_chars(left.as_str());
        let ghost l0 = v@;
        let mut k: usize = 0;
        while k < pad
            invariant
                0 <= k <= pad,
                v@ == l0 + spaces(k as nat),
            decreases pad - k,
        {
            v.push(' ');
            assert(v@ =~= l0 + spaces((k + 1) as nat));
            k += 1;
        }
        cat(from_chars(&v).as_str(), right)
    } else {
        let keep = avail.saturating_sub(1);
        let lv = to_chars(left.as_str());
        let n = if keep < lv.len() { keep } else { lv.len() };
        let mut t: Vec<char> = Vec::new();
        let mut k: usize = 0;
        while k < n
            invariant
                0 <= k <= n <= lv.len(),
                t@ == lv@.take(k as int),
            decreases n - k,
        {
            t.push(lv[k]);
            assert(t@ =~= lv@.take(k + 1));
            k += 1;
        }
        cat(cat(from_chars(&t).as_str(), "… ").as_str(), right)
    }
}

/// Places `right` at the right edge of a row `width` columns wide (see
/// `right_aligned`); `left` comes back unchanged in the (unreachable in
/// practice) case where the two widths together overflow.
pub fn pad_right_aligned(left: String, right: &str, width: usize) -> (r: String)
    ensures
        display_width(right@) + display_width(left@) + 1 <= usize::MAX ==> r@ == right_aligned(
            left@,
            right@,
            width as int,
            display_width(left@) as int,
            display_width(right@) as int,
        ),
        display_width(right@) + display_width(left@) + 1 > usize::MAX ==> r@ == left@,
{
    let rw = line_width(right);
    let lw = line_width(left.as_str());
    if rw > usize::MAX - 1 || lw > usize::MAX - 1 - rw {
        return left;
    }
    pad_right_aligned_widths(left, right, width, lw, rw)
}


// ------------------------------------------------------------ comments under a body
/// One comment's line: events dimmed as "  ⋯ text (author)", notes as
/// "  author ·2m  text".
pub open spec fn comment_line(c: CommentV, now: int) -> (Seq<char>, bool) {
    if c.kind == "event"@ {
        ("  ⋯ "@ + c.text + " ("@ + c.author + ")"@, true)
    } else {
        ("  "@ + c.author + " ·"@ + humanized(c.created, now) + "  "@ + c.text, false)
    }
}

/// A labelled group: a dimmed rule naming it, then its comments; nothing
/// for an empty group.
pub open spec fn group_lines(label: Seq<char>, group: Seq<CommentV>, now: int) -> Seq<(Seq<char>, bool)> {
    if group.len() == 0 {
        Seq::empty()
    } else {
        seq![("── comments · "@ + label + " ──"@, true)] + group.map_values(|c: CommentV| comment_line(c, now))
    }
}

pub open spec fn in_section(key: Seq<char>) -> spec_fn(CommentV) -> bool {
    |c: CommentV| norm_heading(c.section) == key
}

pub open spec fn whole_item() -> spec_fn(CommentV) -> bool {
    |c: CommentV| c.section.len() == 0
}

/// Groups for the body's headings, in document order, each normalized
/// heading once.
pub open spec fn named_groups(cs: Seq<CommentV>, hs: Seq<Seq<char>>, now: int) -> Seq<(Seq<char>, bool)>
    decreases hs.len(),
{
    if hs.len() == 0 {
        Seq::empty()
    } else {
        let prev = hs.drop_last();
        let key = norm_heading(hs.last());
        named_groups(cs, prev, now) + if prev.map_values(|h: Seq<char>| norm_heading(h)).contains(key) {
            Seq::empty()
        } else {
            group_lines(hs.last(), keep(cs, in_section(key)), now)
        }
    }
}

/// An earlier comment (before position `k`) is anchored to the same
/// normalized section.
pub open spec fn key_seen_before(cs: Seq<CommentV>, k: int, key: Seq<char>) -> bool {
    exists|j: int| 0 <= j < k && cs[j].section.len() > 0 && #[trigger] norm_heading(cs[j].section) == key
}

/// Groups for sections no longer among the headings ("detached"), in order
/// of their first comment.
pub open spec fn detached_groups(cs: Seq<CommentV>, keys: Seq<Seq<char>>, k: int, now: int) -> Seq<(Seq<char>, bool)>
    decreases k,
{
    if k <= 0 {
        Seq::empty()
    } else {
        let c = cs[k - 1];
        let key = norm_heading(c.section);
        detached_groups(cs, keys, k - 1, now) + if c.section.len() > 0 && !keys.contains(key) && !key_seen_before(cs, k - 1, key) {
            group_lines(c.section + " (detached)"@, keep(cs, in_section(key)), now)
        } else {
            Seq::empty()
        }
    }
}

/// The comment block under a body: named sections, then detached ones, then
/// the whole-item group; nothing when there are no comments.
pub open spec fn comment_block_lines(cs: Seq<CommentV>, hs: Seq<Seq<char>>, now: int) -> Seq<(Seq<char>, bool)> {
    if cs.len() == 0 {
        Seq::empty()
    } else {
        named_groups(cs, hs, now) + detached_groups(cs, hs.map_values(|h: Seq<char>| norm_heading(h)), cs.len() as int, now)
            + group_lines("(whole)"@, keep(cs, whole_item()), now)
    }
}

fn comment_line_exec(c: &Comment, now: u64) -> (r: (String, bool))
    ensures
        (r.0@, r.1) == comment_line(c@, now as int),
{
    if eq_chars(&to_chars(c.kind.as_str()), &to_chars("event")) {
        let a = cat(cat("  ⋯ ", c.text.as_str()).as_str(), " (");
        (cat(cat(a.as_str(), c.author.as_str()).as_str(), ")"), true)
    } else {
        let rel = humanize_since(c.created.as_str(), now);
        let a = cat(cat("  ", c.author.as_str()).as_str(), " ·");
        (cat(cat(cat(a.as_str(), rel.as_str()).as_str(), "  ").as_str(), c.text.as_str()), false)
    }
}

pub open spec fn line_views(v: Seq<(String, bool)>) -> Seq<(Seq<char>, bool)> {
    v.map_values(|x: (String, bool)| (x.0@, x.1))
}

/// Appends the lines of a group (selected by `key`, or the whole-item group
/// when `whole`) under `label`.
fn push_group(out: &mut Vec<(String, bool)>, cs: &Vec<Comment>, label: &str, key: &Vec<char>, whole: bool, now: u64)
    ensures
        line_views(final(out)@) == line_views(old(out)@) + group_lines(
            label@,
            keep(views(cs@), if whole { whole_item() } else { in_section(key@) }),
            now as int,
        ),
{
    let ghost p = if whole { whole_item() } else { in_section(key@) };
    let ghost f = |c: CommentV| comment_line(c, now as int);
    let mut lines: Vec<(String, bool)> = Vec::new();
    for i in 0..cs.len()
        invariant
            p == (if whole { whole_item() } else { in_section(key@) }),
            f == (|c: CommentV| comment_line(c, now as int)),
            line_views(lines@) == keep(views(cs@).take(i as int), p).map_values(f),
    {
        proof {
            lemma_keep_step(views(cs@), i as int, p);
        }
        let c = &cs[i];
        let hit = if whole { is_blank(c.section.as_str()) } else { eq_chars(&to_chars(norm_heading_exec(c.section.as_str()).as_str()), key) };
        if hit {
            let ghost before = lines@;
            let l = comment_line_exec(c, now);
            lines.push(l);
            assert(lines@ == before.push(l));
            assert(line_views(lines@) =~= line_views(before).push((l.0@, l.1)));
            let ghost kp = keep(views(cs@).take(i as int), p);
            assert(kp.push(views(cs@)[i as int]).map_values(f) =~= kp.map_values(f).push(f(views(cs@)[i as int])));
        }
    }
    proof {
        lemma_keep_all(views(cs@), p);
    }
    if lines.len() == 0 {
        assert(keep(views(cs@), p).len() == 0);
        return;
    }
    let ghost o = out@;
    let rule = cat(cat("── comments · ", label).as_str(), " ──");
    out.push((rule, true));
    let mut k: usize = 0;
    while k < lines.len()
        invariant
            0 <= k <= lines.len(),
            line_views(out@) == line_views(o) + seq![("── comments · "@ + label@ + " ──"@, true)] + line_views(lines@).take(k as int),
        decreases lines.len() - k,
    {
        let ghost before = out@;
        let x = (dup(&lines[k].0), lines[k].1);
        out.push(x);
        assert(out@ == before.push(x));
        assert(line_views(out@) =~= line_views(before).push((x.0@, x.1)));
        assert(line_views(lines@).take(k + 1) =~= line_views(lines@).take(k as int).push(line_views(lines@)[k as int]));
        k += 1;
    }
    assert(line_views(lines@).take(lines.len() as int) =~= line_views(lines@));
    assert(line_views(out@) =~= line_views(o) + group_lines(label@, keep(views(cs@), p), now as int));
}

fn has_key(keys: &Vec<Vec<char>>, k: &Vec<char>) -> (b: bool)
    ensures
        b == keys.deep_view().contains(k@),
{
    for i in 0..keys.len()
        invariant
            forall|j: int| 0 <= j < i ==> keys.deep_view()[j] != k@,
    {
        assert(keys.deep_view()[i as int] == keys@[i as int].deep_view());
        assert(keys@[i as int].deep_view() =~= keys@[i as int]@);
        if eq_chars(&keys[i], k) {
            assert(keys.deep_view()[i as int] == k@);
            return true;
        }
    }
    false
}

/// The lines shown under a body for its comments: each heading's group,
/// then groups for sections anchored to headings no longer present, then
/// the whole-item group. The flag marks dimmed lines.
pub fn comment_block(comments: &Vec<Comment>, headings: &Vec<String>, now: u64) -> (r: Vec<(String, bool)>)
    ensures
        line_views(r@) == comment_block_lines(views(comments@), headings.deep_view(), now as int),
{
    let mut out: Vec<(String, bool)> = Vec::new();
    if comments.len() == 0 {
        assert(line_views(out@) =~= Seq::<(Seq<char>, bool)>::empty());
        return out;
    }
    let ghost cs = views(comments@);
    let ghost hs = headings.deep_view();
    let ghost nf = |h: Seq<char>| norm_heading(h);
    let mut seen: Vec<Vec<char>> = Vec::new();
    for i in 0..headings.len()
        invariant
            cs == views(comments@),
            hs == headings.deep_view(),
            nf == (|h: Seq<char>| norm_heading(h)),
            seen.deep_view() == hs.take(i as int).map_values(nf),
            line_views(out@) == named_groups(cs, hs.take(i as int), now as int),
    {
        let ghost pre = hs.take(i as int);
        proof {
            assert(hs.take(i + 1).drop_last() =~= pre);
            assert(hs.take(i + 1).last() == hs[i as int]);
            assert(hs[i as int] == headings@[i as int]@);
        }
        let key = to_chars(norm_heading_exec(headings[i].as_str()).as_str());
        let dup_key = has_key(&seen, &key);
        if !dup_key {
            push_group(&mut out, comments, headings[i].as_str(), &key, false, now);
        }
        let ghost sb = seen.deep_view();
        let kc = slice_chars_all(&key);
        assert(kc.deep_view() =~= kc@);
        seen.push(kc);
        assert(seen.deep_view() =~= sb.push(key@));
        assert(hs.take(i + 1).map_values(nf) =~= pre.map_values(nf).push(nf(hs[i as int])));
        assert(line_views(out@) =~= named_groups(cs, hs.take(i + 1), now as int));
    }
    assert(hs.take(headings.len() as int) =~= hs);
    let ghost keys = hs.map_values(nf);
    for k in 0..comments.len()
        invariant
            cs == views(comments@),
            hs == headings.deep_view(),
            keys == hs.map_values(nf),
            nf == (|h: Seq<char>| norm_heading(h)),
            seen.deep_view() == keys,
            line_views(out@) == named_groups(cs, hs, now as int) + detached_groups(cs, keys, k as int, now as int),
    {
        let c = &comments[k];
        let ghost before = line_views(out@);
        if !is_blank(c.section.as_str()) {
            let key = to_chars(norm_heading_exec(c.section.as_str()).as_str());
            if !has_key(&seen, &key) && !seen_earlier(comments, k, &key) {
                let label = cat(c.section.as_str(), " (detached)");
                push_group(&mut out, comments, label.as_str(), &key, false, now);
            }
        }
        assert(line_views(out@) =~= named_groups(cs, hs, now as int) + detached_groups(cs, keys, k + 1, now as int));
    }
    let none: Vec<char> = Vec::new();
    push_group(&mut out, comments, "(whole)", &none, true, now);
    out
}

/// Some comment before position `k` has a non-empty section that
/// normalizes to `key`.
fn seen_earlier(cs: &Vec<Comment>, k: usize, key: &Vec<char>) -> (b: bool)
    requires
        k <= cs.len(),
    ensures
        b == key_seen_before(views(cs@), k as int, key@),
{
    let ghost s = views(cs@);
    for j in 0..k
        invariant
            k <= cs.len(),
            s == views(cs@),
            forall|m: int| 0 <= m < j ==> !(s[m].section.len() > 0 && #[trigger] norm_heading(s[m].section) == key@),
    {
        if !is_blank(cs[j].section.as_str()) && eq_chars(&to_chars(norm_heading_exec(cs[j].section.as_str()).as_str()), key) {
            assert(s[j as int].section.len() > 0 && norm_heading(s[j as int].section) == key@);
            return true;
        }
    }
    false
}

fn slice_chars_all(v: &Vec<char>) -> (r: Vec<char>)
    ensures
        r@ == v@,
{
    let r = crate::text::slice_chars(v, 0, v.len());
    assert(r@ =~= v@);
    r
}

// ------------------------------------------------------------ list filters
/// A case-insensitive substring test.
pub open spec fn hit(hay: Seq<char>, q: Seq<char>) -> bool {
    contains_seq(lower(hay), q)
}

pub open spec fn any_tag_hit(tags: Seq<Seq<char>>, q: Seq<char>) -> bool {
    exists|i: int| 0 <= i < tags.len() && hit(#[trigger] tags[i], q)
}

fn hit_exec(hay: &str, q: &Vec<char>) -> (b: bool)
    ensures
        b == hit(hay@, q@),
{
    contains_chars(&to_chars(to_lower(hay).as_str()), q)
}

fn any_tag_hit_exec(tags: &Vec<String>, q: &Vec<char>) -> (b: bool)
    ensures
        b == any_tag_hit(tags.deep_view(), q@),
{
    for i in 0..tags.len()
        invariant
            forall|j: int| 0 <= j < i ==> !hit(#[trigger] tags.deep_view()[j], q@),
    {
        assert(tags.deep_view()[i as int] == tags@[i as int]@);
        if hit_exec(tags[i].as_str(), q) {
            return true;
        }
    }
    false
}

/// A todo shows under the list filter when the lower-cased query occurs in
/// its lower-cased title, status, priority or one of its tags.
pub open spec fn todo_shown(q: Seq<char>) -> spec_fn(TodoV) -> bool {
    |t: TodoV| hit(t.title, q) || hit(t.status, q) || hit(t.priority, q) || any_tag_hit(t.tags, q)
}

/// The todos the list shows for a filter (all of them for an empty one).
pub fn visible_todos(todos: &Vec<Todo>, filter: &str) -> (r: Vec<Todo>)
    ensures
        filter@.len() == 0 ==> views(r@) == views(todos@),
        filter@.len() > 0 ==> views(r@) == keep(views(todos@), todo_shown(lower(filter@))),
{
    let q = to_chars(to_lower(filter).as_str());
    let empty = is_blank(filter);
    let ghost p = todo_shown(lower(filter@));
    let ghost ts = views(todos@);
    let mut out: Vec<Todo> = Vec::new();
    for i in 0..todos.len()
        invariant
            ts == views(todos@),
            q@ == lower(filter@),
            empty == (filter@.len() == 0),
            p == todo_shown(lower(filter@)),
            empty ==> views(out@) == ts.take(i as int),
            !empty ==> views(out@) == keep(ts.take(i as int), p),
    {
        proof {
            lemma_keep_step(ts, i as int, p);
        }
        let t = &todos[i];
        if empty || hit_exec(t.title.as_str(), &q) || hit_exec(t.status.as_str(), &q) || hit_exec(t.priority.as_str(), &q)
            || any_tag_hit_exec(&t.tags, &q) {
            let ghost before = views(out@);
            let c = t.copy();
            out.push(c);
            assert(views(out@) =~= before.push(c@));
        }
        assert(empty ==> views(out@) =~= ts.take(i + 1));
    }
    proof {
        lemma_keep_all(ts, p);
    }
    assert(ts.take(todos.len() as int) =~= ts);
    out
}

/// A pad shows under the list filter when the query occurs in its title or
/// one of its tags (case-insensitively).
pub open spec fn pad_shown(q: Seq<char>) -> spec_fn(PadV) -> bool {
    |s: PadV| hit(s.title, q) || any_tag_hit(s.tags, q)
}

pub fn visible_pads(pads: &Vec<Scratchpad>, filter: &str) -> (r: Vec<Scratchpad>)
    ensures
        filter@.len() == 0 ==> views(r@) == views(pads@),
        filter@.len() > 0 ==> views(r@) == keep(views(pads@), pad_shown(lower(filter@))),
{
    let q = to_chars(to_lower(filter).as_str());
    let empty = is_blank(filter);
    let ghost p = pad_shown(lower(filter@));
    let ghost ps = views(pads@);
    let mut out: Vec<Scratchpad> = Vec::new();
    for i in 0..pads.len()
        invariant
            ps == views(pads@),
            q@ == lower(filter@),
            empty == (filter@.len() == 0),
            p == pad_shown(lower(filter@)),
            empty ==> views(out@) == ps.take(i as int),
            !empty ==> views(out@) == keep(ps.take(i as int), p),
    {
        proof {
            lemma_keep_step(ps, i as int, p);
        }
        let s = &pads[i];
        if empty || hit_exec(s.title.as_str(), &q) || any_tag_hit_exec(&s.tags, &q) {
            let ghost before = views(out@);
            let c = s.copy();
            out.push(c);
            assert(views(out@) =~= before.push(c@));
        }
        assert(empty ==> views(out@) =~= ps.take(i + 1));
    }
    proof {
        lemma_keep_all(ps, p);
    }
    assert(ps.take(pads.len() as int) =~= ps);
    out
}


// ------------------------------------------------------------ list row texts
/// "💬n" for a row with notes, nothing otherwise.
pub open spec fn note_mark(n: int) -> Seq<char> {
    if n > 0 {
        "💬"@ + dec_digits(n as nat)
    } else {
        Seq::empty()
    }
}

/// A todo's row: its check box, its priority tag (upper-cased, "?" when
/// empty), its title and a no-entry mark when blocked; on the right its
/// note count, a sync mark for an active GitHub link, its lock owner and
/// its age.
pub open spec fn todo_row_text(t: TodoV, blocked: bool, notes: int, now: int) -> (Seq<char>, Seq<char>) {
    let glyph = if t.status == "completed"@ { "☑"@ } else { "☐"@ };
    let pri = if t.priority.len() == 0 { "?"@ } else { upper(t.priority) };
    let left = glyph + " ["@ + pri + "] "@ + t.title + (if blocked { " ⛔"@ } else { Seq::empty() });
    let gh = match t.github {
        Some(l) => if !l.paused { "⇅"@ } else { Seq::empty() },
        None => Seq::empty(),
    };
    let lock = match t.lock {
        Some(l) => if l.owner.len() > 0 { "🔒 "@ + l.owner } else { Seq::empty() },
        None => Seq::empty(),
    };
    (left, cluster_text(seq![note_mark(notes), gh, lock, humanized(t.updated, now)]))
}

/// A scratchpad's row: a bullet and its title; its note count and age on
/// the right.
pub open spec fn pad_row_text(s: PadV, notes: int, now: int) -> (Seq<char>, Seq<char>) {
    ("• "@ + s.title, cluster_text(seq![note_mark(notes), humanized(s.updated, now)]))
}

fn note_mark_exec(n: usize) -> (r: String)
    ensures
        r@ == note_mark(n as int),
{
    if n > 0 {
        let d = crate::num::fmt_u64(n as u64);
        cat("💬", from_chars(&d).as_str())
    } else {
        String::new()
    }
}

pub fn todo_row(t: &Todo, blocked: bool, notes: usize, now: u64) -> (r: (String, String))
    ensures
        (r.0@, r.1@) == todo_row_text(t@, blocked, notes as int, now as int),
{
    proof {
        reveal_strlit("completed");
        reveal_strlit("?");
    }
    let glyph = if crate::text::is_text(t.status.as_str(), "completed") { "☑" } else { "☐" };
    let pri = if is_blank(t.priority.as_str()) {
        from_chars(&to_chars("?"))
    } else {
        to_upper(t.priority.as_str())
    };
    let mut left = cat(cat(cat(cat(glyph, " [").as_str(), pri.as_str()).as_str(), "] ").as_str(), t.title.as_str());
    if blocked {
        left = cat(left.as_str(), " ⛔");
    }
    let gh = match &t.github {
        Some(l) => if !l.paused { from_chars(&to_chars("⇅")) } else { String::new() },
        None => String::new(),
    };
    let lock = match &t.lock {
        Some(l) => if !is_blank(l.owner.as_str()) { cat("🔒 ", l.owner.as_str()) } else { String::new() },
        None => String::new(),
    };
    let parts = vec![note_mark_exec(notes), gh, lock, humanize_since(t.updated.as_str(), now)];
    let right = cluster(&parts);
    proof {
        assert(parts.deep_view() =~= seq![note_mark(notes as int), parts@[1]@, parts@[2]@, humanized(t@.updated, now as int)]);
    }
    (left, right)
}

pub fn pad_row(s: &Scratchpad, notes: usize, now: u64) -> (r: (String, String))
    ensures
        (r.0@, r.1@) == pad_row_text(s@, notes as int, now as int),
{
    let parts = vec![note_mark_exec(notes), humanize_since(s.updated.as_str(), now)];
    let right = cluster(&parts);
    proof {
        assert(parts.deep_view() =~= seq![note_mark(notes as int), humanized(s@.updated, now as int)]);
    }
    (cat("• ", s.title.as_str()), right)
}

/// A plan's row: a bullet and its path; its note count on the right.
pub fn plan_row(rel_path: &str, notes: usize) -> (r: (String, String))
    ensures
        r.0@ == "• "@ + rel_path@,
        r.1@ == note_mark(notes as int),
{
    (cat("• ", rel_path), note_mark_exec(notes))
}

/// What an empty list shows, with and without a filter.
pub open spec fn empty_list_text(tab: Tab, filter: Seq<char>) -> Seq<char> {
    if filter.len() == 0 {
        match tab {
            Tab::Todos => "  No todos yet."@,
            Tab::Scratchpads => "  No scratchpads yet."@,
            Tab::Plans => "  No plans found. Configure paths in $HERDR_PLUGIN_CONFIG_DIR/plan-paths."@,
        }
    } else {
        match tab {
            Tab::Todos => "  No todos match /"@ + filter,
            Tab::Scratchpads => "  No scratchpads match /"@ + filter,
            Tab::Plans => "  No plans match /"@ + filter,
        }
    }
}

pub fn empty_list(tab: Tab, filter: &str) -> (r: String)
    ensures
        r@ == empty_list_text(tab, filter@),
{
    if is_blank(filter) {
        match tab {
            Tab::Todos => from_chars(&to_chars("  No todos yet.")),
            Tab::Scratchpads => from_chars(&to_chars("  No scratchpads yet.")),
            Tab::Plans => from_chars(&to_chars("  No plans found. Configure paths in $HERDR_PLUGIN_CONFIG_DIR/plan-paths.")),
        }
    } else {
        match tab {
            Tab::Todos => cat("  No todos match /", filter),
            Tab::Scratchpads => cat("  No scratchpads match /", filter),
            Tab::Plans => cat("  No plans match /", filter),
        }
    }
}

/// The first row a list of `len` rows shows in `h` lines so that the cursor
/// row stays on screen.
pub fn list_offset(h: usize, len: usize, cursor: usize) -> (r: usize)
    ensures
        r == (if h > 0 && len > 0 && cursor >= h { cursor - h + 1 } else { 0 }),
{
    if h > 0 && len > 0 && cursor >= h {
        cursor - h + 1
    } else {
        0
    }
}

} // verus!
