//! Markdown clean-up done before a body is rendered in the terminal: task
//! list markers become checkbox glyphs, and tables become padded columns.
use vstd::prelude::*;
use crate::text::{
    to_chars, from_chars, split_on, split_chars, lemma_split_nonempty, join_with, join_chars, trim,
    trim_chars, trim_start_by, trim_end_by, is_ws, char_is_ws, starts_with, starts_with_chars,
    skip_chars, slice_chars, concat_chars, lemma_lead_len_is, lemma_trail_len_is, lemma_lead_len,
};
use crate::tui::{spaces, sat_sub};

verus! {

// ------------------------------------------------------------ lines
pub open spec fn strip_cr(l: Seq<char>) -> Seq<char> {
    if l.len() > 0 && l.last() == '\r' {
        l.drop_last()
    } else {
        l
    }
}

/// `str::lines`: pieces ended by "\n" (a "\r" before it dropped too); a
/// final empty piece is not a line.
pub open spec fn str_lines(s: Seq<char>) -> Seq<Seq<char>> {
    let p = split_on(s, '\n');
    let init = p.drop_last().map_values(|l: Seq<char>| strip_cr(l));
    if p.last().len() == 0 {
        init
    } else {
        init.push(p.last())
    }
}

fn strip_cr_exec(l: &Vec<char>) -> (r: Vec<char>)
    ensures
        r@ == strip_cr(l@),
{
    if l.len() > 0 && l[l.len() - 1] == '\r' {
        let r = slice_chars(l, 0, l.len() - 1);
        assert(r@ =~= l@.drop_last());
        r
    } else {
        slice_chars(l, 0, l.len())
    }
}

pub fn str_lines_exec(s: &str) -> (r: Vec<Vec<char>>)
    ensures
        r.deep_view() == str_lines(s@),
{
    let p = split_chars(&to_chars(s), '\n');
    proof {
        lemma_split_nonempty(s@, '\n');
    }
    let ghost pv = p.deep_view();
    let ghost f = |l: Seq<char>| strip_cr(l);
    let n = p.len() - 1;
    let mut out: Vec<Vec<char>> = Vec::new();
    for i in 0..n
        invariant
            n == p.len() - 1,
            pv == p.deep_view(),
            f == (|l: Seq<char>| strip_cr(l)),
            out.deep_view() == pv.drop_last().take(i as int).map_values(f),
    {
        assert(pv[i as int] == p@[i as int]@);
        let l = strip_cr_exec(&p[i]);
        let ghost before = out.deep_view();
        assert(l.deep_view() =~= l@);
        out.push(l);
        assert(out.deep_view() =~= before.push(l@));
        assert(pv.drop_last().take(i + 1).map_values(f) =~= pv.drop_last().take(i as int).map_values(f).push(f(pv[i as int])));
    }
    assert(pv.drop_last().take(n as int) =~= pv.drop_last());
    assert(pv.last() == p@[n as int]@);
    if p[n].len() > 0 {
        let ghost before = out.deep_view();
        let l = slice_chars(&p[n], 0, p[n].len());
        assert(l@ =~= p@[n as int]@);
        assert(l.deep_view() =~= l@);
        out.push(l);
        assert(out.deep_view() =~= before.push(l@));
    }
    out
}

pub open spec fn join_lines(ls: Seq<Seq<char>>) -> Seq<char> {
    join_with(ls, "\n"@)
}

// ------------------------------------------------------------ task lists
pub open spec fn is_bullet(c: char) -> bool {
    c == '-' || c == '*' || c == '+'
}

/// For an unindented line `- [ ] rest` / `* [x] rest` / `+ [X] rest`:
/// whether it is checked, and the rest.
pub open spec fn task_of(t: Seq<char>) -> Option<(bool, Seq<char>)> {
    if t.len() >= 2 && is_bullet(t[0]) && t[1] == ' ' {
        let after = t.skip(2);
        if starts_with(after, "[ ]"@) {
            Some((false, after.skip(3)))
        } else if starts_with(after, "[x]"@) || starts_with(after, "[X]"@) {
            Some((true, after.skip(3)))
        } else {
            None
        }
    } else {
        None
    }
}

/// A task-list line rewritten as a plain item with a checkbox glyph (its
/// indent kept); any other line unchanged.
pub open spec fn neutral_line(line: Seq<char>) -> Seq<char> {
    let t = trim_start_by(line, |c: char| is_ws(c));
    let indent = line.take(line.len() - t.len());
    match task_of(t) {
        Some(x) => indent + "- "@ + (if x.0 { "☑"@ } else { "☐"@ }) + " "@ + trim_start_by(x.1, |c: char| is_ws(c)),
        None => line,
    }
}

pub open spec fn neutralized(body: Seq<char>) -> Seq<char> {
    join_lines(str_lines(body).map_values(|l: Seq<char>| neutral_line(l)))
}

fn trim_start_ws(v: &Vec<char>) -> (r: (Vec<char>, usize))
    ensures
        r.0@ == trim_start_by(v@, |c: char| is_ws(c)),
        r.1 <= v.len(),
        r.0@ == v@.skip(r.1 as int),
{
    let mut a: usize = 0;
    while a < v.len() && char_is_ws(v[a])
        invariant
            0 <= a <= v.len(),
            forall|j: int| 0 <= j < a ==> is_ws(v@[j]),
        decreases v.len() - a,
    {
        a += 1;
    }
    proof {
        lemma_lead_len_is(v@, |c: char| is_ws(c), a as int);
    }
    (skip_chars(v, a), a)
}

fn neutral_line_exec(line: &Vec<char>) -> (r: Vec<char>)
    ensures
        r@ == neutral_line(line@),
{
    proof {
        reveal_strlit("[ ]");
        reveal_strlit("[x]");
        reveal_strlit("[X]");
        reveal_strlit("- ");
        reveal_strlit("☑");
        reveal_strlit("☐");
        reveal_strlit(" ");
    }
    let (t, a) = trim_start_ws(line);
    let indent = slice_chars(line, 0, a);
    assert(indent@ =~= line@.take(line@.len() - t@.len()));
    if !(t.len() >= 2 && (t[0] == '-' || t[0] == '*' || t[0] == '+') && t[1] == ' ') {
        return slice_chars(line, 0, line.len());
    }
    let after = skip_chars(&t, 2);
    let done: bool;
    if starts_with_chars(&after, &to_chars("[ ]")) {
        done = false;
    } else if starts_with_chars(&after, &to_chars("[x]")) || starts_with_chars(&after, &to_chars("[X]")) {
        done = true;
    } else {
        let r = slice_chars(line, 0, line.len());
        assert(r@ =~= line@);
        return r;
    }
    let (rest, _k) = trim_start_ws(&skip_chars(&after, 3));
    let mut out = concat_chars(&indent, &to_chars("- "));
    out = concat_chars(&out, &to_chars(if done { "☑" } else { "☐" }));
    out = concat_chars(&out, &to_chars(" "));
    out = concat_chars(&out, &rest);
    out
}

/// Rewrites GFM task-list markers (`- [ ]`, `- [x]`) as plain list items
/// with a checkbox glyph.
pub fn neutralize_task_lists(body: &str) -> (r: String)
    ensures
        r@ == neutralized(body@),
{
    let lines = str_lines_exec(body);
    let ghost ls = lines.deep_view();
    let ghost f = |l: Seq<char>| neutral_line(l);
    let mut out: Vec<Vec<char>> = Vec::new();
    for i in 0..lines.len()
        invariant
            ls == lines.deep_view(),
            f == (|l: Seq<char>| neutral_line(l)),
            out.deep_view() == ls.take(i as int).map_values(f),
    {
        assert(ls[i as int] == lines@[i as int]@);
        let l = neutral_line_exec(&lines[i]);
        let ghost before = out.deep_view();
        assert(l.deep_view() =~= l@);
        out.push(l);
        assert(out.deep_view() =~= before.push(l@));
        assert(ls.take(i + 1).map_values(f) =~= ls.take(i as int).map_values(f).push(f(ls[i as int])));
    }
    assert(ls.take(lines.len() as int) =~= ls);
    from_chars(&join_chars(&out, &to_chars("\n")))
}


// ------------------------------------------------------------ tables
/// A table row's cells: trimmed, outer pipes dropped, split on '|', each
/// trimmed.
pub open spec fn cells_of(line: Seq<char>) -> Seq<Seq<char>> {
    let t = trim(line);
    let t1 = if t.len() > 0 && t[0] == '|' { t.skip(1) } else { t };
    let t2 = if t1.len() > 0 && t1.last() == '|' { t1.drop_last() } else { t1 };
    split_on(t2, '|').map_values(|c: Seq<char>| trim(c))
}

pub open spec fn delim_cell(c: Seq<char>) -> bool {
    let t = trim(c);
    t.len() > 0 && t.contains('-') && forall|k: int| 0 <= k < t.len() ==> (t[k] == '-' || t[k] == ':')
}

/// A GFM delimiter row: every cell is dashes with optional colons.
pub open spec fn is_delim_row(line: Seq<char>) -> bool {
    &&& line.contains('-')
    &&& cells_of(line).len() > 0
    &&& forall|i: int| 0 <= i < cells_of(line).len() ==> delim_cell(#[trigger] cells_of(line)[i])
}

/// The first line at or after `j` that does not continue a table (no pipe,
/// or blank).
pub open spec fn table_end(lines: Seq<Seq<char>>, j: int) -> int
    decreases lines.len() - j,
{
    if 0 <= j < lines.len() && lines[j].contains('|') && trim(lines[j]).len() > 0 {
        table_end(lines, j + 1)
    } else {
        j
    }
}

pub proof fn lemma_table_end(lines: Seq<Seq<char>>, j: int)
    requires
        0 <= j <= lines.len(),
    ensures
        j <= table_end(lines, j) <= lines.len(),
    decreases lines.len() - j,
{
    if j < lines.len() && lines[j].contains('|') && trim(lines[j]).len() > 0 {
        lemma_table_end(lines, j + 1);
    }
}

/// The widest cell in column `c` over the rows.
pub open spec fn col_width(rows: Seq<Seq<Seq<char>>>, c: int) -> nat
    decreases rows.len(),
{
    if rows.len() == 0 {
        0
    } else {
        let w = col_width(rows.drop_last(), c);
        let r = rows.last();
        let x = if 0 <= c < r.len() { r[c].len() } else { 0 };
        if x > w {
            x
        } else {
            w
        }
    }
}

pub open spec fn cell_at(row: Seq<Seq<char>>, c: int) -> Seq<char> {
    if 0 <= c < row.len() {
        row[c]
    } else {
        Seq::empty()
    }
}

pub open spec fn padded_cell(row: Seq<Seq<char>>, ws: Seq<nat>, c: int) -> Seq<char> {
    cell_at(row, c) + spaces(sat_sub(ws[c] as int, cell_at(row, c).len() as int) as nat)
}

/// A row laid out in columns of the given widths, " │ " between them,
/// trailing space trimmed.
pub open spec fn fmt_row(row: Seq<Seq<char>>, ws: Seq<nat>) -> Seq<char> {
    trim_end_by(join_with(Seq::new(ws.len(), |c: int| padded_cell(row, ws, c)), " │ "@), |c: char| is_ws(c))
}

pub open spec fn rule(n: nat) -> Seq<char> {
    Seq::new(n, |i: int| '─')
}

/// The line under the header: a rule per column, joined by "─┼─".
pub open spec fn sep_row(ws: Seq<nat>) -> Seq<char> {
    join_with(Seq::new(ws.len(), |c: int| rule(ws[c])), "─┼─"@)
}

pub open spec fn widths_of(rows: Seq<Seq<Seq<char>>>) -> Seq<nat> {
    Seq::new(rows[0].len(), |c: int| col_width(rows, c))
}

/// A table (header row first) as padded columns: the header, the rule,
/// then the body rows.
pub open spec fn table_lines(rows: Seq<Seq<Seq<char>>>) -> Seq<Seq<char>> {
    let ws = widths_of(rows);
    seq![fmt_row(rows[0], ws), sep_row(ws)] + rows.skip(1).map_values(|r: Seq<Seq<char>>| fmt_row(r, ws))
}

/// The lines from `i` on with each table block (a piped line, a delimiter
/// row, then piped non-blank lines) laid out in columns.
pub open spec fn reformat_from(lines: Seq<Seq<char>>, i: int) -> Seq<Seq<char>>
    decreases lines.len() - i,
{
    if i < 0 || i >= lines.len() {
        Seq::empty()
    } else if lines[i].contains('|') && i + 1 < lines.len() && is_delim_row(lines[i + 1]) {
        let j = table_end(lines, i + 2);
        proof {
            lemma_table_end(lines, i + 2);
        }
        table_lines((seq![lines[i]] + lines.subrange(i + 2, j)).map_values(|l: Seq<char>| cells_of(l)))
            + reformat_from(lines, j)
    } else {
        seq![lines[i]] + reformat_from(lines, i + 1)
    }
}

pub open spec fn reformatted(body: Seq<char>) -> Seq<char> {
    join_lines(reformat_from(str_lines(body), 0))
}

fn has_char(v: &Vec<char>, c: char) -> (b: bool)
    ensures
        b == v@.contains(c),
{
    for i in 0..v.len()
        invariant
            forall|j: int| 0 <= j < i ==> v@[j] != c,
    {
        if v[i] == c {
            assert(v@[i as int] == c);
            return true;
        }
    }
    false
}

pub fn split_cells(line: &Vec<char>) -> (r: Vec<Vec<char>>)
    ensures
        r.deep_view() == cells_of(line@),
        r.len() >= 1,
{
    let t = trim_chars(line);
    let t1 = if t.len() > 0 && t[0] == '|' { skip_chars(&t, 1) } else { slice_chars(&t, 0, t.len()) };
    assert(t1@ =~= (if t@.len() > 0 && t@[0] == '|' { t@.skip(1) } else { t@ }));
    let t2 = if t1.len() > 0 && t1[t1.len() - 1] == '|' { slice_chars(&t1, 0, t1.len() - 1) } else { slice_chars(&t1, 0, t1.len()) };
    assert(t2@ =~= (if t1@.len() > 0 && t1@.last() == '|' { t1@.drop_last() } else { t1@ }));
    let parts = split_chars(&t2, '|');
    proof {
        lemma_split_nonempty(t2@, '|');
    }
    let ghost pv = parts.deep_view();
    let ghost f = |c: Seq<char>| trim(c);
    let mut out: Vec<Vec<char>> = Vec::new();
    for i in 0..parts.len()
        invariant
            pv == parts.deep_view(),
            f == (|c: Seq<char>| trim(c)),
            out.deep_view() == pv.take(i as int).map_values(f),
    {
        assert(pv[i as int] == parts@[i as int]@);
        let c = trim_chars(&parts[i]);
        let ghost before = out.deep_view();
        assert(c.deep_view() =~= c@);
        out.push(c);
        assert(out.deep_view() =~= before.push(c@));
        assert(pv.take(i + 1).map_values(f) =~= pv.take(i as int).map_values(f).push(f(pv[i as int])));
    }
    assert(pv.take(parts.len() as int) =~= pv);
    out
}

fn delim_cell_exec(c: &Vec<char>) -> (b: bool)
    ensures
        b == delim_cell(c@),
{
    let t = trim_chars(c);
    if t.len() == 0 || !has_char(&t, '-') {
        return false;
    }
    for k in 0..t.len()
        invariant
            t@ == trim(c@),
            t@.len() > 0 && t@.contains('-'),
            forall|m: int| 0 <= m < k ==> (t@[m] == '-' || t@[m] == ':'),
    {
        if t[k] != '-' && t[k] != ':' {
            assert(!(t@[k as int] == '-' || t@[k as int] == ':'));
            return false;
        }
    }
    true
}

pub fn is_delim(line: &Vec<char>) -> (b: bool)
    ensures
        b == is_delim_row(line@),
{
    if !has_char(line, '-') {
        return false;
    }
    let cells = split_cells(line);
    for i in 0..cells.len()
        invariant
            cells.deep_view() == cells_of(line@),
            forall|j: int| 0 <= j < i ==> delim_cell(#[trigger] cells_of(line@)[j]),
    {
        assert(cells.deep_view()[i as int] == cells@[i as int]@);
        if !delim_cell_exec(&cells[i]) {
            return false;
        }
    }
    true
}

fn table_end_exec(lines: &Vec<Vec<char>>, j: usize) -> (r: usize)
    requires
        j <= lines.len(),
    ensures
        r == table_end(lines.deep_view(), j as int),
        j <= r <= lines.len(),
{
    let ghost ls = lines.deep_view();
    let mut k = j;
    while k < lines.len() && has_char(&lines[k], '|') && trim_chars(&lines[k]).len() > 0
        invariant
            j <= k <= lines.len(),
            ls == lines.deep_view(),
            table_end(ls, j as int) == table_end(ls, k as int),
        decreases lines.len() - k,
    {
        assert(ls[k as int] == lines@[k as int]@);
        k += 1;
    }
    if k < lines.len() {
        assert(ls[k as int] == lines@[k as int]@);
    }
    k
}

pub open spec fn nat_view(ws: Seq<usize>) -> Seq<nat> {
    ws.map_values(|x: usize| x as nat)
}

fn fmt_row_exec(row: &Vec<Vec<char>>, ws: &Vec<usize>) -> (r: Vec<char>)
    ensures
        r@ == fmt_row(row.deep_view(), nat_view(ws@)),
{
    let ghost wv = nat_view(ws@);
    let ghost pieces = Seq::new(wv.len(), |c: int| padded_cell(row.deep_view(), wv, c));
    let mut parts: Vec<Vec<char>> = Vec::new();
    for c in 0..ws.len()
        invariant
            wv == nat_view(ws@),
            pieces == Seq::new(wv.len(), |c: int| padded_cell(row.deep_view(), wv, c)),
            parts.deep_view() == pieces.take(c as int),
    {
        let mut cell: Vec<char> = if c < row.len() { slice_chars(&row[c], 0, row[c].len()) } else { Vec::new() };
        assert(cell@ == cell_at(row.deep_view(), c as int)) by {
            if (c as int) < row.len() {
                assert(row.deep_view()[c as int] == row@[c as int]@);
                assert(cell@ =~= row@[c as int]@);
            } else {
                assert(cell@ =~= Seq::<char>::empty());
            }
        }
        let ghost c0 = cell@;
        let pad = if ws[c] > cell.len() { ws[c] - cell.len() } else { 0 };
        let mut k: usize = 0;
        while k < pad
            invariant
                0 <= k <= pad,
                cell@ == c0 + spaces(k as nat),
            decreases pad - k,
        {
            cell.push(' ');
            assert(cell@ =~= c0 + spaces((k + 1) as nat));
            k += 1;
        }
        assert(cell@ =~= pieces[c as int]);
        let ghost before = parts.deep_view();
        assert(cell.deep_view() =~= cell@);
        parts.push(cell);
        assert(parts.deep_view() =~= before.push(pieces[c as int]));
        assert(pieces.take(c + 1) =~= pieces.take(c as int).push(pieces[c as int]));
    }
    assert(pieces.take(ws.len() as int) =~= pieces);
    let joined = join_chars(&parts, &to_chars(" │ "));
    let mut b: usize = joined.len();
    while b > 0 && char_is_ws(joined[b - 1])
        invariant
            b <= joined.len(),
            forall|j: int| b <= j < joined.len() ==> is_ws(joined@[j]),
        decreases b,
    {
        b -= 1;
    }
    proof {
        lemma_trail_len_is(joined@, |c: char| is_ws(c), (joined.len() - b) as int);
        assert(joined@.take(b as int) =~= joined@.subrange(0, b as int));
    }
    slice_chars(&joined, 0, b)
}

fn sep_exec(ws: &Vec<usize>) -> (r: Vec<char>)
    ensures
        r@ == sep_row(nat_view(ws@)),
{
    let ghost wv = nat_view(ws@);
    let ghost pieces = Seq::new(wv.len(), |c: int| rule(wv[c]));
    let mut parts: Vec<Vec<char>> = Vec::new();
    for c in 0..ws.len()
        invariant
            wv == nat_view(ws@),
            pieces == Seq::new(wv.len(), |c: int| rule(wv[c])),
            parts.deep_view() == pieces.take(c as int),
    {
        let mut r: Vec<char> = Vec::new();
        let mut k: usize = 0;
        while k < ws[c]
            invariant
                c < ws.len(),
                0 <= k <= ws[c as int],
                r@ == rule(k as nat),
            decreases ws[c as int] - k,
        {
            r.push('─');
            assert(r@ =~= rule((k + 1) as nat));
            k += 1;
        }
        assert(r@ =~= pieces[c as int]);
        let ghost before = parts.deep_view();
        assert(r.deep_view() =~= r@);
        parts.push(r);
        assert(parts.deep_view() =~= before.push(pieces[c as int]));
        assert(pieces.take(c + 1) =~= pieces.take(c as int).push(pieces[c as int]));
    }
    assert(pieces.take(ws.len() as int) =~= pieces);
    join_chars(&parts, &to_chars("─┼─"))
}

pub open spec fn row_views(rows: Seq<Vec<Vec<char>>>) -> Seq<Seq<Seq<char>>> {
    rows.map_values(|r: Vec<Vec<char>>| r.deep_view())
}

fn table_exec(rows: &Vec<Vec<Vec<char>>>) -> (r: Vec<Vec<char>>)
    requires
        rows.len() >= 1,
    ensures
        r.deep_view() == table_lines(row_views(rows@)),
{
    let ghost rv = row_views(rows@);
    let ncol = rows[0].len();
    assert(rv[0] == rows@[0].deep_view());
    let mut ws: Vec<usize> = Vec::new();
    for c in 0..ncol
        invariant
            ncol == rows@[0].len(),
            rv == row_views(rows@),
            ws@.len() == c,
            forall|m: int| 0 <= m < c ==> ws@[m] as nat == #[trigger] col_width(rv, m),
    {
        let mut w: usize = 0;
        for r in 0..rows.len()
            invariant
                rv == row_views(rows@),
                w as nat == col_width(rv.take(r as int), c as int),
        {
            proof {
                assert(rv.take(r + 1).drop_last() =~= rv.take(r as int));
                assert(rv.take(r + 1).last() == rv[r as int]);
                assert(rv[r as int] == rows@[r as int].deep_view());
            }
            if c < rows[r].len() {
                assert(rows@[r as int].deep_view()[c as int] == rows@[r as int]@[c as int]@);
                if rows[r][c].len() > w {
                    w = rows[r][c].len();
                }
            }
        }
        assert(rv.take(rows.len() as int) =~= rv);
        ws.push(w);
    }
    let ghost wv = nat_view(ws@);
    assert(wv =~= widths_of(rv));
    assert(rv[0] == rows@[0].deep_view());
    let mut out: Vec<Vec<char>> = Vec::new();
    let h0 = fmt_row_exec(&rows[0], &ws);
    let h1 = sep_exec(&ws);
    assert(h0.deep_view() =~= h0@);
    assert(h1.deep_view() =~= h1@);
    out.push(h0);
    out.push(h1);
    let ghost f = |r: Seq<Seq<char>>| fmt_row(r, wv);
    let ghost head = out.deep_view();
    assert(head =~= seq![fmt_row(rv[0], wv), sep_row(wv)]);
    for k in 1..rows.len()
        invariant
            rv == row_views(rows@),
            wv == nat_view(ws@),
            f == (|r: Seq<Seq<char>>| fmt_row(r, wv)),
            out.deep_view() == head + rv.skip(1).take(k - 1).map_values(f),
    {
        assert(rv[k as int] == rows@[k as int].deep_view());
        let line = fmt_row_exec(&rows[k], &ws);
        let ghost before = out.deep_view();
        assert(line.deep_view() =~= line@);
        out.push(line);
        assert(out.deep_view() =~= before.push(line@));
        assert(rv.skip(1).take(k as int).map_values(f) =~= rv.skip(1).take(k - 1).map_values(f).push(f(rv[k as int])));
    }
    assert(rv.skip(1).take(rows.len() - 1) =~= rv.skip(1));
    out
}

/// Rewrites GFM table blocks as space-padded columns joined by " │ ",
/// leaving every other line as it is.
pub fn reformat_tables(body: &str) -> (r: String)
    ensures
        r@ == reformatted(body@),
{
    let lines = str_lines_exec(body);
    let ghost ls = lines.deep_view();
    let mut out: Vec<Vec<char>> = Vec::new();
    let mut i: usize = 0;
    while i < lines.len()
        invariant
            0 <= i <= lines.len(),
            ls == lines.deep_view(),
            out.deep_view() + reformat_from(ls, i as int) == reformat_from(ls, 0),
        decreases lines.len() - i,
    {
        let ghost before = out.deep_view();
        assert(ls[i as int] == lines@[i as int]@);
        if i + 1 < lines.len() {
            assert(ls[i + 1] == lines@[i + 1]@);
        }
        if has_char(&lines[i], '|') && i + 1 < lines.len() && is_delim(&lines[i + 1]) {
            let j = table_end_exec(&lines, i + 2);
            let mut rows: Vec<Vec<Vec<char>>> = Vec::new();
            rows.push(split_cells(&lines[i]));
            let mut k: usize = i + 2;
            while k < j
                invariant
                    i + 2 <= k <= j <= lines.len(),
                    ls == lines.deep_view(),
                    row_views(rows@) == (seq![ls[i as int]] + ls.subrange(i + 2, k as int)).map_values(|l: Seq<char>| cells_of(l)),
                decreases j - k,
            {
                assert(ls[k as int] == lines@[k as int]@);
                let ghost rb = row_views(rows@);
                let cells = split_cells(&lines[k]);
                rows.push(cells);
                assert(row_views(rows@) =~= rb.push(cells.deep_view()));
                assert(seq![ls[i as int]] + ls.subrange(i + 2, k + 1) =~= (seq![ls[i as int]] + ls.subrange(i + 2, k as int)).push(ls[k as int]));
                k += 1;
            }
            let block = table_exec(&rows);
            let mut m: usize = 0;
            while m < block.len()
                invariant
                    0 <= m <= block.len(),
                    out.deep_view() == before + block.deep_view().take(m as int),
                decreases block.len() - m,
            {
                let ghost b2 = out.deep_view();
                let l = slice_chars(&block[m], 0, block[m].len());
                assert(l@ =~= block@[m as int]@);
                assert(block.deep_view()[m as int] == block@[m as int]@);
                assert(l.deep_view() =~= l@);
                out.push(l);
                assert(out.deep_view() =~= b2.push(l@));
                assert(block.deep_view().take(m + 1) =~= block.deep_view().take(m as int).push(block.deep_view()[m as int]));
                m += 1;
            }
            assert(block.deep_view().take(block.len() as int) =~= block.deep_view());
            assert(out.deep_view() + reformat_from(ls, j as int) =~= before + reformat_from(ls, i as int));
            i = j;
        } else {
            let l = slice_chars(&lines[i], 0, lines[i].len());
            assert(l@ =~= lines@[i as int]@);
            assert(l.deep_view() =~= l@);
            out.push(l);
            assert(out.deep_view() =~= before.push(ls[i as int]));
            assert(out.deep_view() + reformat_from(ls, i + 1) =~= before + reformat_from(ls, i as int));
            i += 1;
        }
    }
    from_chars(&join_chars(&out, &to_chars("\n")))
}

} // verus!
