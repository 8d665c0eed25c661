//! The command line's grammar (single- or double-dash flags) and the markdown it prints
//! for people.
use vstd::prelude::*;
use crate::errors::{debug_str, debug_text};
use crate::num::{parse_int, parse_i64, dec_digits, fmt_u64, int_text, fmt_i64};
use crate::comments::{Comment, CommentV};
use crate::order::{keep, lemma_keep_step, lemma_keep_all, views};
use crate::project::{Project, ProjectV};
use crate::scratchpads::{Scratchpad, PadV};
use crate::todos::{Todo, TodoV, is_blocked_by};
use crate::text::{
    to_chars, from_chars, dup, cat, eq_chars, is_blank, has_string, starts_with, starts_with_chars,
    find_seq, find_chars, find_from, occurs_at, lemma_find_from, skip_chars, slice_chars, join_with,
    join_strings,
};

verus! {

/// One flag as given: a boolean flag's value, or a value flag's value.
#[derive(Debug, Clone)]
pub enum Flag {
    Bool(String, bool),
    Value(String, String),
}

pub enum FlagV {
    Bool(Seq<char>, bool),
    Value(Seq<char>, Seq<char>),
}

impl View for Flag {
    type V = FlagV;

    open spec fn view(&self) -> FlagV {
        match self {
            Flag::Bool(n, b) => FlagV::Bool(n@, *b),
            Flag::Value(n, v) => FlagV::Value(n@, v@),
        }
    }
}

/// The flags of a command line, in the order given.
pub struct Parsed {
    pub flags: Vec<Flag>,
}

pub open spec fn flag_views(fs: Seq<Flag>) -> Seq<FlagV> {
    fs.map_values(|f: Flag| f@)
}

/// strconv.ParseBool's forms.
pub open spec fn bool_text(s: Seq<char>) -> Option<bool> {
    if s == "1"@ || s == "t"@ || s == "T"@ || s == "TRUE"@ || s == "true"@ || s == "True"@ {
        Some(true)
    } else if s == "0"@ || s == "f"@ || s == "F"@ || s == "FALSE"@ || s == "false"@ || s == "False"@ {
        Some(false)
    } else {
        None
    }
}

pub fn parse_bool(s: &str) -> (r: Result<bool, String>)
    ensures
        bool_text(s@) matches Some(b) ==> r == Ok::<bool, String>(b),
        bool_text(s@) is None ==> (r matches Err(m) && m@ == "invalid boolean value "@ + debug_text(s@)),
{
    let is = |lit: &str| -> (b: bool)
        ensures
            b == (s@ == lit@),
        { eq_chars(&to_chars(s), &to_chars(lit)) };
    if is("1") || is("t") || is("T") || is("TRUE") || is("true") || is("True") {
        Ok(true)
    } else if is("0") || is("f") || is("F") || is("FALSE") || is("false") || is("False") {
        Ok(false)
    } else {
        Err(cat("invalid boolean value ", debug_str(s).as_str()))
    }
}

/// "true"/"false" → Some, anything else (including "") → None.
pub open spec fn bool_ptr(s: Seq<char>) -> Option<bool> {
    if s == "true"@ {
        Some(true)
    } else if s == "false"@ {
        Some(false)
    } else {
        None
    }
}

pub fn parse_bool_ptr(s: &str) -> (r: Option<bool>)
    ensures
        r == bool_ptr(s@),
{
    if eq_chars(&to_chars(s), &to_chars("true")) {
        Some(true)
    } else if eq_chars(&to_chars(s), &to_chars("false")) {
        Some(false)
    } else {
        None
    }
}

/// The first value, or empty when there is none.
pub fn first(m: &Vec<String>) -> (r: String)
    ensures
        m.len() > 0 ==> r@ == m@[0]@,
        m.len() == 0 ==> r@.len() == 0,
{
    if m.len() > 0 {
        dup(&m[0])
    } else {
        String::new()
    }
}

/// An empty --project means "the current directory".
pub fn project_opt(project: &str) -> (r: Option<String>)
    ensures
        project@.len() == 0 ==> r is None,
        project@.len() > 0 ==> (r matches Some(p) && p@ == project@),
{
    if is_blank(project) {
        None
    } else {
        Some(from_chars(&to_chars(project)))
    }
}

/// A flag token: starts with '-' and is neither "-" nor "--".
pub open spec fn is_flag_token(a: Seq<char>) -> bool {
    a.len() > 0 && a[0] == '-' && a != "-"@ && a != "--"@
}

/// The flag's name and inline value: `-x`/`--x`, `--x=v`.
pub open spec fn flag_parts(a: Seq<char>) -> (Seq<char>, Option<Seq<char>>) {
    let body = if starts_with(a, "--"@) { a.skip(2) } else { a.skip(1) };
    match find_seq(body, "="@) {
        Some(k) => (body.take(k), Some(body.skip(k + 1))),
        None => (body, None),
    }
}

/// The flags from position `i` on, or the first error; parsing stops at the
/// first non-flag token or "--".
pub open spec fn flags_from(
    args: Seq<Seq<char>>,
    bools: Seq<Seq<char>>,
    values: Seq<Seq<char>>,
    ints: Seq<Seq<char>>,
    i: int,
) -> Result<Seq<FlagV>, Seq<char>>
    decreases args.len() - i,
{
    if i < 0 || i >= args.len() || !is_flag_token(args[i]) {
        Ok(Seq::empty())
    } else {
        let (name, inline) = flag_parts(args[i]);
        if bools.contains(name) {
            match inline {
                Some(s) => match bool_text(s) {
                    Some(b) => prepend(FlagV::Bool(name, b), flags_from(args, bools, values, ints, i + 1)),
                    None => Err("invalid boolean value "@ + debug_text(s)),
                },
                None => prepend(FlagV::Bool(name, true), flags_from(args, bools, values, ints, i + 1)),
            }
        } else if values.contains(name) {
            if inline is None && i + 1 >= args.len() {
                Err("flag needs an argument: -"@ + name)
            } else {
                let v = match inline {
                    Some(s) => s,
                    None => args[i + 1],
                };
                let next = if inline is Some { i + 1 } else { i + 2 };
                if ints.contains(name) && parse_int(v) is None {
                    Err("invalid value \""@ + v + "\" for flag -"@ + name)
                } else {
                    prepend(FlagV::Value(name, v), flags_from(args, bools, values, ints, next))
                }
            }
        } else {
            Err("flag provided but not defined: -"@ + name)
        }
    }
}

pub open spec fn prepend(f: FlagV, r: Result<Seq<FlagV>, Seq<char>>) -> Result<Seq<FlagV>, Seq<char>> {
    match r {
        Ok(fs) => Ok(seq![f] + fs),
        Err(e) => Err(e),
    }
}

pub open spec fn prepend_all(p: Seq<FlagV>, r: Result<Seq<FlagV>, Seq<char>>) -> Result<Seq<FlagV>, Seq<char>> {
    match r {
        Ok(fs) => Ok(p + fs),
        Err(e) => Err(e),
    }
}

pub proof fn lemma_prepend(p: Seq<FlagV>, f: FlagV, r: Result<Seq<FlagV>, Seq<char>>)
    ensures
        prepend_all(p, prepend(f, r)) == prepend_all(p + seq![f], r),
{
    match r {
        Ok(fs) => {
            assert(p + (seq![f] + fs) =~= (p + seq![f]) + fs);
        },
        Err(_) => {},
    }
}

fn flag_parts_exec(a: &Vec<char>) -> (r: (String, Option<String>))
    requires
        a@.len() > 0,
    ensures
        (r.0@, r.1.deep_view()) == flag_parts(a@),
{
    proof {
        reveal_strlit("--");
        reveal_strlit("=");
    }
    let body = if starts_with_chars(a, &to_chars("--")) { skip_chars(a, 2) } else { skip_chars(a, 1) };
    let eq = to_chars("=");
    match find_chars(&body, &eq) {
        Some(k) => {
            proof {
                lemma_find_from(body@, eq@, 0);
                assert(find_from(body@, eq@, 0) == Some(k as int));
                assert(occurs_at(body@, eq@, k as int));
            }
            assert(k + 1 <= body.len());
            let name = slice_chars(&body, 0, k);
            assert(name@ =~= body@.take(k as int));
            (from_chars(&name), Some(from_chars(&skip_chars(&body, k + 1))))
        },
        None => (from_chars(&body), None),
    }
}

/// Parses flags: `-x`/`--x`, `-x val`,
/// `--x=val`, boolean flags that take no value unless given with '=', value
/// flags that take the next token even when it looks like a flag. Parsing
/// stops at the first non-flag token or "--".
pub fn parse(args: &Vec<String>, bool_flags: &Vec<String>, value_flags: &Vec<String>, int_flags: &Vec<String>) -> (r: Result<Parsed, String>)
    ensures
        match flags_from(args.deep_view(), bool_flags.deep_view(), value_flags.deep_view(), int_flags.deep_view(), 0) {
            Ok(fs) => r matches Ok(p) && flag_views(p.flags@) == fs,
            Err(m) => r matches Err(e) && e@ == m,
        },
{
    let ghost av = args.deep_view();
    let ghost bv = bool_flags.deep_view();
    let ghost vv = value_flags.deep_view();
    let ghost iv = int_flags.deep_view();
    let mut flags: Vec<Flag> = Vec::new();
    let mut i: usize = 0;
    while i < args.len()
        invariant
            0 <= i <= args.len(),
            av == args.deep_view(),
            bv == bool_flags.deep_view(),
            vv == value_flags.deep_view(),
            iv == int_flags.deep_view(),
            flags_from(av, bv, vv, iv, 0) == prepend_all(flag_views(flags@), flags_from(av, bv, vv, iv, i as int)),
        ensures
            flags_from(av, bv, vv, iv, i as int) == Ok::<Seq<FlagV>, Seq<char>>(Seq::empty()),
            flags_from(av, bv, vv, iv, 0) == prepend_all(flag_views(flags@), flags_from(av, bv, vv, iv, i as int)),
        decreases args.len() - i,
    {
        proof {
            reveal_strlit("-");
            reveal_strlit("--");
        }
        let a = to_chars(args[i].as_str());
        assert(av[i as int] == a@);
        let is_flag = a.len() > 0 && a[0] == '-' && !eq_chars(&a, &to_chars("-")) && !eq_chars(&a, &to_chars("--"));
        if !is_flag {
            break;
        }
        let (name, inline) = flag_parts_exec(&a);
        assert(is_flag_token(av[i as int]));
        assert((name@, inline.deep_view()) == flag_parts(av[i as int]));
        let ghost before = flag_views(flags@);
        if has_string(bool_flags, name.as_str()) {
            let v = match &inline {
                Some(s) => match parse_bool(s.as_str()) {
                    Ok(b) => b,
                    Err(e) => return Err(e),
                },
                None => true,
            };
            let f = Flag::Bool(name, v);
            flags.push(f);
            assert(flag_views(flags@) =~= before + seq![f@]);
            proof {
                lemma_prepend(before, f@, flags_from(av, bv, vv, iv, i + 1));
            }
            i += 1;
        } else if has_string(value_flags, name.as_str()) {
            let v: String;
            let next: usize;
            match inline {
                Some(s) => {
                    v = s;
                    next = i + 1;
                },
                None => {
                    if i + 1 >= args.len() {
                        return Err(cat("flag needs an argument: -", name.as_str()));
                    }
                    v = dup(&args[i + 1]);
                    assert(av[i + 1] == args@[i + 1]@);
                    next = i + 2;
                },
            }
            assert(v@ == (match inline.deep_view() { Some(s) => s, None => av[i + 1] }));
            if has_string(int_flags, name.as_str()) && parse_i64(&to_chars(v.as_str())).is_none() {
                let m = cat(cat(cat("invalid value \"", v.as_str()).as_str(), "\" for flag -").as_str(), name.as_str());
                assert(flags_from(av, bv, vv, iv, i as int) == Err::<Seq<FlagV>, Seq<char>>(m@));
                return Err(m);
            }
            let f = Flag::Value(name, v);
            flags.push(f);
            assert(flag_views(flags@) =~= before + seq![f@]);
            proof {
                lemma_prepend(before, f@, flags_from(av, bv, vv, iv, next as int));
            }
            i = next;
        } else {
            return Err(cat("flag provided but not defined: -", name.as_str()));
        }
    }
    assert(flag_views(flags@) + Seq::<FlagV>::empty() =~= flag_views(flags@));
    Ok(Parsed { flags })
}

// ------------------------------------------------------------ reading flags
/// The last value given for a value flag.
pub open spec fn last_value(fs: Seq<FlagV>, name: Seq<char>) -> Option<Seq<char>>
    decreases fs.len(),
{
    if fs.len() == 0 {
        None
    } else {
        match fs.last() {
            FlagV::Value(n, v) => if n == name { Some(v) } else { last_value(fs.drop_last(), name) },
            FlagV::Bool(_, _) => last_value(fs.drop_last(), name),
        }
    }
}

/// Every value given for a value flag, in order.
pub open spec fn all_values(fs: Seq<FlagV>, name: Seq<char>) -> Seq<Seq<char>>
    decreases fs.len(),
{
    if fs.len() == 0 {
        Seq::empty()
    } else {
        let prev = all_values(fs.drop_last(), name);
        match fs.last() {
            FlagV::Value(n, v) => if n == name { prev.push(v) } else { prev },
            FlagV::Bool(_, _) => prev,
        }
    }
}

/// The last value given for a boolean flag.
pub open spec fn last_bool(fs: Seq<FlagV>, name: Seq<char>) -> Option<bool>
    decreases fs.len(),
{
    if fs.len() == 0 {
        None
    } else {
        match fs.last() {
            FlagV::Bool(n, b) => if n == name { Some(b) } else { last_bool(fs.drop_last(), name) },
            FlagV::Value(_, _) => last_bool(fs.drop_last(), name),
        }
    }
}

pub open spec fn flag_name(f: FlagV) -> Seq<char> {
    match f {
        FlagV::Bool(n, _) => n,
        FlagV::Value(n, _) => n,
    }
}

fn name_of(f: &Flag) -> (r: &String)
    ensures
        r@ == flag_name(f@),
{
    match f {
        Flag::Bool(n, _) => n,
        Flag::Value(n, _) => n,
    }
}

impl Parsed {
    /// The last value given, else the default.
    pub fn str(&self, name: &str, default: &str) -> (r: String)
        ensures
            r@ == match last_value(flag_views(self.flags@), name@) {
                Some(v) => v,
                None => default@,
            },
    {
        let ghost fs = flag_views(self.flags@);
        let mut i = self.flags.len();
        assert(fs.take(i as int) =~= fs);
        while i > 0
            invariant
                i <= self.flags.len(),
                fs == flag_views(self.flags@),
                last_value(fs, name@) == last_value(fs.take(i as int), name@),
            decreases i,
        {
            assert(fs.take(i as int).drop_last() =~= fs.take(i - 1));
            assert(fs.take(i as int).last() == self.flags@[i - 1]@);
            match &self.flags[i - 1] {
                Flag::Value(n, v) => {
                    if eq_chars(&to_chars(n.as_str()), &to_chars(name)) {
                        return dup(v);
                    }
                },
                Flag::Bool(_, _) => {},
            }
            i -= 1;
        }
        from_chars(&to_chars(default))
    }

    /// Every value given, in order.
    pub fn multi(&self, name: &str) -> (r: Vec<String>)
        ensures
            r.deep_view() == all_values(flag_views(self.flags@), name@),
    {
        let ghost fs = flag_views(self.flags@);
        let mut out: Vec<String> = Vec::new();
        for i in 0..self.flags.len()
            invariant
                fs == flag_views(self.flags@),
                out.deep_view() == all_values(fs.take(i as int), name@),
        {
            assert(fs.take(i + 1).drop_last() =~= fs.take(i as int));
            assert(fs.take(i + 1).last() == self.flags@[i as int]@);
            match &self.flags[i] {
                Flag::Value(n, v) => {
                    if eq_chars(&to_chars(n.as_str()), &to_chars(name)) {
                        let ghost before = out.deep_view();
                        let c = dup(v);
                        out.push(c);
                        assert(out.deep_view() =~= before.push(c@));
                    }
                },
                Flag::Bool(_, _) => {},
            }
        }
        assert(fs.take(self.flags.len() as int) =~= fs);
        out
    }

    /// The last value given read as an integer, else the default (also when
    /// it does not parse).
    pub fn integer(&self, name: &str, default: i64) -> (r: i64)
        ensures
            r == match last_value(flag_views(self.flags@), name@) {
                Some(v) => match parse_int(v) {
                    Some(n) => n,
                    None => default as int,
                },
                None => default as int,
            },
    {
        if !self.was_set_value(name) {
            return default;
        }
        let s = self.str(name, "");
        match parse_i64(&to_chars(s.as_str())) {
            Some(n) => n,
            None => default,
        }
    }

    fn was_set_value(&self, name: &str) -> (b: bool)
        ensures
            b == (last_value(flag_views(self.flags@), name@) is Some),
    {
        let ghost fs = flag_views(self.flags@);
        let mut i = self.flags.len();
        assert(fs.take(i as int) =~= fs);
        while i > 0
            invariant
                i <= self.flags.len(),
                fs == flag_views(self.flags@),
                last_value(fs, name@) == last_value(fs.take(i as int), name@),
            decreases i,
        {
            assert(fs.take(i as int).drop_last() =~= fs.take(i - 1));
            assert(fs.take(i as int).last() == self.flags@[i - 1]@);
            match &self.flags[i - 1] {
                Flag::Value(n, _) => {
                    if eq_chars(&to_chars(n.as_str()), &to_chars(name)) {
                        return true;
                    }
                },
                Flag::Bool(_, _) => {},
            }
            i -= 1;
        }
        false
    }

    /// The last value given for a boolean flag, else the default.
    pub fn boolean(&self, name: &str, default: bool) -> (r: bool)
        ensures
            r == match last_bool(flag_views(self.flags@), name@) {
                Some(b) => b,
                None => default,
            },
    {
        let ghost fs = flag_views(self.flags@);
        let mut i = self.flags.len();
        assert(fs.take(i as int) =~= fs);
        while i > 0
            invariant
                i <= self.flags.len(),
                fs == flag_views(self.flags@),
                last_bool(fs, name@) == last_bool(fs.take(i as int), name@),
            decreases i,
        {
            assert(fs.take(i as int).drop_last() =~= fs.take(i - 1));
            assert(fs.take(i as int).last() == self.flags@[i - 1]@);
            match &self.flags[i - 1] {
                Flag::Bool(n, b) => {
                    if eq_chars(&to_chars(n.as_str()), &to_chars(name)) {
                        return *b;
                    }
                },
                Flag::Value(_, _) => {},
            }
            i -= 1;
        }
        default
    }

    /// Was the flag given at all?
    pub fn was_set(&self, name: &str) -> (b: bool)
        ensures
            b == exists|i: int| 0 <= i < self.flags@.len() && flag_name(#[trigger] flag_views(self.flags@)[i]) == name@,
    {
        for i in 0..self.flags.len()
            invariant
                forall|j: int| 0 <= j < i ==> flag_name(#[trigger] flag_views(self.flags@)[j]) != name@,
        {
            if eq_chars(&to_chars(name_of(&self.flags[i]).as_str()), &to_chars(name)) {
                assert(flag_name(flag_views(self.flags@)[i as int]) == name@);
                return true;
            }
        }
        false
    }
}

/// Splits off a leading id for subcommands that take one: the first token
/// after the subcommand, unless it looks like a flag.
pub fn split_id(id_taking: bool, rest: &Vec<String>) -> (r: (String, Vec<String>))
    ensures
        (id_taking && rest.len() > 0 && !starts_with(rest@[0]@, "-"@)) ==> (r.0@ == rest@[0]@
            && r.1.deep_view() == rest.deep_view().skip(1)),
        !(id_taking && rest.len() > 0 && !starts_with(rest@[0]@, "-"@)) ==> (r.0@.len() == 0
            && r.1.deep_view() == rest.deep_view()),
{
    proof {
        reveal_strlit("-");
    }
    let from: usize = if id_taking && rest.len() > 0 && !starts_with_chars(&to_chars(rest[0].as_str()), &to_chars("-")) { 1 } else { 0 };
    let mut tail: Vec<String> = Vec::new();
    let mut k: usize = from;
    while k < rest.len()
        invariant
            from <= k <= rest.len(),
            tail.deep_view() == rest.deep_view().subrange(from as int, k as int),
        decreases rest.len() - k,
    {
        let ghost before = tail.deep_view();
        let c = dup(&rest[k]);
        tail.push(c);
        assert(tail.deep_view() =~= before.push(c@));
        assert(rest.deep_view()[k as int] == rest@[k as int]@);
        assert(tail.deep_view() =~= rest.deep_view().subrange(from as int, k + 1));
        k += 1;
    }
    assert(rest.deep_view().subrange(from as int, rest.len() as int) =~= rest.deep_view().skip(from as int));
    if from == 1 {
        (dup(&rest[0]), tail)
    } else {
        (String::new(), tail)
    }
}


// ------------------------------------------------------------ markdown output
pub open spec fn status_label_of(s: Seq<char>) -> Seq<char> {
    if s == "in_progress"@ {
        "In progress"@
    } else if s == "open"@ {
        "Open"@
    } else if s == "backlog"@ {
        "Backlog"@
    } else if s == "completed"@ {
        "Completed"@
    } else {
        s
    }
}

pub fn status_label(s: &str) -> (r: String)
    ensures
        r@ == status_label_of(s@),
{
    let is = |lit: &str| -> (b: bool)
        ensures
            b == (s@ == lit@),
        { eq_chars(&to_chars(s), &to_chars(lit)) };
    let out = if is("in_progress") {
        "In progress"
    } else if is("open") {
        "Open"
    } else if is("backlog") {
        "Backlog"
    } else if is("completed") {
        "Completed"
    } else {
        s
    };
    from_chars(&to_chars(out))
}

pub open spec fn prio_mark_of(p: Seq<char>) -> Seq<char> {
    if p == "p0"@ {
        "🔴"@
    } else if p == "p1"@ {
        "🟠"@
    } else if p == "p2"@ {
        "🟡"@
    } else if p == "p3"@ {
        "⚪"@
    } else {
        Seq::empty()
    }
}

pub fn prio_mark(p: &str) -> (r: String)
    ensures
        r@ == prio_mark_of(p@),
{
    let is = |lit: &str| -> (b: bool)
        ensures
            b == (p@ == lit@),
        { eq_chars(&to_chars(p), &to_chars(lit)) };
    if is("p0") {
        from_chars(&to_chars("🔴"))
    } else if is("p1") {
        from_chars(&to_chars("🟠"))
    } else if is("p2") {
        from_chars(&to_chars("🟡"))
    } else if is("p3") {
        from_chars(&to_chars("⚪"))
    } else {
        String::new()
    }
}

/// A string list written as "[a b]".
pub open spec fn tags_text(tags: Seq<Seq<char>>) -> Seq<char> {
    "["@ + join_with(tags, " "@) + "]"@
}

pub fn sprint_tags(tags: &Vec<String>) -> (r: String)
    ensures
        r@ == tags_text(tags.deep_view()),
{
    cat(cat("[", join_strings(tags, " ").as_str()).as_str(), "]")
}

/// Texts one after another.
pub open spec fn concat_all(ss: Seq<Seq<char>>) -> Seq<char>
    decreases ss.len(),
{
    if ss.len() == 0 {
        Seq::empty()
    } else {
        concat_all(ss.drop_last()) + ss.last()
    }
}

pub open spec fn when(b: bool, s: Seq<char>) -> Seq<char> {
    if b {
        s
    } else {
        Seq::empty()
    }
}

/// One todo's list line: checkbox, priority mark, title, blocked and lock
/// markers, tags, then its id on a second line.
pub open spec fn todo_row(t: TodoV, blocked: bool) -> Seq<char> {
    "- ["@ + (if t.status == "completed"@ { "x"@ } else { " "@ }) + "] "@ + prio_mark_of(t.priority) + " "@ + t.title
        + when(blocked, " ⛔"@) + when(t.lock is Some, " 🔒"@) + when(t.tags.len() > 0, "  `"@ + tags_text(t.tags) + "`"@)
        + "  \n  <sub>"@ + t.id + "</sub>\n"@
}

pub open spec fn with_status(s: Seq<char>) -> spec_fn(TodoV) -> bool {
    |t: TodoV| t.status == s
}

/// The section for one status: a heading with the count, the todos' lines,
/// and a blank line; nothing when no todo has the status.
pub open spec fn status_group(all: Seq<TodoV>, todos: Seq<TodoV>, s: Seq<char>) -> Seq<char> {
    let g = keep(todos, with_status(s));
    if g.len() == 0 {
        Seq::empty()
    } else {
        "## "@ + status_label_of(s) + " ("@ + dec_digits(g.len()) + ")\n\n"@ + concat_all(
            g.map_values(|t: TodoV| todo_row(t, is_blocked_by(t, all))),
        ) + "\n"@
    }
}

/// The markdown list of todos, grouped by status (in progress, open,
/// backlog, completed); other statuses are not shown.
pub open spec fn todos_doc(name: Seq<char>, all: Seq<TodoV>, todos: Seq<TodoV>) -> Seq<char> {
    "# "@ + name + " — todos\n\n"@ + status_group(all, todos, "in_progress"@) + status_group(all, todos, "open"@)
        + status_group(all, todos, "backlog"@) + status_group(all, todos, "completed"@) + when(
        todos.len() == 0,
        "_No todos yet._\n"@,
    )
}

fn todo_row_exec(t: &Todo, blocked: bool) -> (r: String)
    ensures
        r@ == todo_row(t@, blocked),
{
    let done = eq_chars(&to_chars(t.status.as_str()), &to_chars("completed"));
    let mut r = cat(cat("- [", if done { "x" } else { " " }).as_str(), "] ");
    r = cat(cat(cat(r.as_str(), prio_mark(t.priority.as_str()).as_str()).as_str(), " ").as_str(), t.title.as_str());
    if blocked {
        r = cat(r.as_str(), " ⛔");
    }
    if t.lock.is_some() {
        r = cat(r.as_str(), " 🔒");
    }
    if t.tags.len() > 0 {
        r = cat(cat(cat(r.as_str(), "  `").as_str(), sprint_tags(&t.tags).as_str()).as_str(), "`");
    }
    r = cat(cat(cat(r.as_str(), "  \n  <sub>").as_str(), t.id.as_str()).as_str(), "</sub>\n");
    proof {
        reveal_strlit("x");
        reveal_strlit(" ");
    }
    assert(r@ =~= todo_row(t@, blocked));
    r
}

fn status_group_exec(p: &Project, todos: &Vec<Todo>, s: &str) -> (r: String)
    ensures
        r@ == status_group(p@.todos, views(todos@), s@),
{
    let ghost ts = views(todos@);
    let ghost pr = with_status(s@);
    let ghost f = |t: TodoV| todo_row(t, is_blocked_by(t, p@.todos));
    let mut n: u64 = 0;
    let mut body = String::new();
    for i in 0..todos.len()
        invariant
            ts == views(todos@),
            pr == with_status(s@),
            f == (|t: TodoV| todo_row(t, is_blocked_by(t, p@.todos))),
            n as int == keep(ts.take(i as int), pr).len(),
            n <= i,
            body@ == concat_all(keep(ts.take(i as int), pr).map_values(f)),
    {
        proof {
            lemma_keep_step(ts, i as int, pr);
        }
        let t = &todos[i];
        if eq_chars(&to_chars(t.status.as_str()), &to_chars(s)) {
            let row = todo_row_exec(t, p.is_blocked(t));
            let ghost kp = keep(ts.take(i as int), pr);
            assert(kp.push(ts[i as int]).map_values(f) =~= kp.map_values(f).push(f(ts[i as int])));
            assert(kp.map_values(f).push(f(ts[i as int])).drop_last() =~= kp.map_values(f));
            body = cat(body.as_str(), row.as_str());
            n = n + 1;
        }
    }
    proof {
        lemma_keep_all(ts, pr);
    }
    if n == 0 {
        return String::new();
    }
    let head = cat(cat(cat(cat("## ", status_label(s).as_str()).as_str(), " (").as_str(), from_chars(&fmt_u64(n)).as_str()).as_str(), ")\n\n");
    cat(cat(head.as_str(), body.as_str()).as_str(), "\n")
}

/// The human-readable todo list.
pub fn render_todos(p: &Project, todos: &Vec<Todo>) -> (r: String)
    ensures
        r@ == todos_doc(p@.name, p@.todos, views(todos@)),
{
    let mut r = cat(cat("# ", p.name.as_str()).as_str(), " — todos\n\n");
    r = cat(r.as_str(), status_group_exec(p, todos, "in_progress").as_str());
    r = cat(r.as_str(), status_group_exec(p, todos, "open").as_str());
    r = cat(r.as_str(), status_group_exec(p, todos, "backlog").as_str());
    r = cat(r.as_str(), status_group_exec(p, todos, "completed").as_str());
    if todos.len() == 0 {
        r = cat(r.as_str(), "_No todos yet._\n");
    }
    assert(r@ =~= todos_doc(p@.name, p@.todos, views(todos@)));
    r
}

/// One pad's list line.
pub open spec fn pad_row(s: PadV) -> Seq<char> {
    "- **"@ + s.title + "**"@ + when(s.status == "archived"@, " _(archived)_"@) + "  `"@ + tags_text(s.tags) + "`  \n  <sub>"@
        + s.id + " · rev "@ + int_text(s.revision) + " · "@ + s.updated + "</sub>\n"@
}

pub open spec fn pads_doc(name: Seq<char>, pads: Seq<PadV>) -> Seq<char> {
    "# "@ + name + " — scratchpads\n\n"@ + concat_all(pads.map_values(|s: PadV| pad_row(s))) + when(
        pads.len() == 0,
        "_No scratchpads yet._\n"@,
    )
}

/// The human-readable scratchpad list.
pub fn render_scratchpads(name: &str, pads: &Vec<Scratchpad>) -> (r: String)
    ensures
        r@ == pads_doc(name@, views(pads@)),
{
    let ghost ps = views(pads@);
    let ghost f = |s: PadV| pad_row(s);
    let mut body = String::new();
    for i in 0..pads.len()
        invariant
            ps == views(pads@),
            f == (|s: PadV| pad_row(s)),
            body@ == concat_all(ps.take(i as int).map_values(f)),
    {
        let s = &pads[i];
        let archived = eq_chars(&to_chars(s.status.as_str()), &to_chars("archived"));
        let mut row = cat(cat(cat("- **", s.title.as_str()).as_str(), "**").as_str(), if archived { " _(archived)_" } else { "" });
        row = cat(cat(cat(row.as_str(), "  `").as_str(), sprint_tags(&s.tags).as_str()).as_str(), "`  \n  <sub>");
        row = cat(cat(cat(row.as_str(), s.id.as_str()).as_str(), " · rev ").as_str(), from_chars(&fmt_i64(s.revision)).as_str());
        row = cat(cat(cat(row.as_str(), " · ").as_str(), s.updated.as_str()).as_str(), "</sub>\n");
        proof {
            reveal_strlit("");
        }
        assert(row@ =~= pad_row(ps[i as int]));
        assert(ps.take(i + 1).map_values(f) =~= ps.take(i as int).map_values(f).push(f(ps[i as int])));
        assert(ps.take(i + 1).map_values(f).drop_last() =~= ps.take(i as int).map_values(f));
        body = cat(body.as_str(), row.as_str());
    }
    assert(ps.take(pads.len() as int) =~= ps);
    let mut r = cat(cat(cat("# ", name).as_str(), " — scratchpads\n\n").as_str(), body.as_str());
    if pads.len() == 0 {
        r = cat(r.as_str(), "_No scratchpads yet._\n");
    }
    assert(r@ =~= pads_doc(name@, views(pads@)));
    r
}

pub open spec fn anchor_of(c: CommentV) -> Seq<char> {
    when(c.section.len() > 0, " · "@ + c.section)
}

/// One comment's line: events as log lines, notes as authored comments.
pub open spec fn comment_row(c: CommentV) -> Seq<char> {
    if c.kind == "event"@ {
        "- ⋯ _"@ + c.text + "_ — "@ + c.author + "  \n  <sub>"@ + c.created + "</sub>\n"@
    } else {
        "- **"@ + c.author + "**"@ + anchor_of(c) + " — "@ + c.text + "  \n  <sub>"@ + c.created + " · "@ + c.id + "</sub>\n"@
    }
}

pub open spec fn comments_doc(cs: Seq<CommentV>) -> Seq<char> {
    if cs.len() == 0 {
        "_No comments yet._\n"@
    } else {
        concat_all(cs.map_values(|c: CommentV| comment_row(c)))
    }
}

fn anchor_exec(c: &Comment) -> (r: String)
    ensures
        r@ == anchor_of(c@),
{
    if is_blank(c.section.as_str()) {
        String::new()
    } else {
        cat(" · ", c.section.as_str())
    }
}

/// The human-readable comment list.
pub fn render_comments(comments: &Vec<Comment>) -> (r: String)
    ensures
        r@ == comments_doc(views(comments@)),
{
    if comments.len() == 0 {
        return from_chars(&to_chars("_No comments yet._\n"));
    }
    let ghost cs = views(comments@);
    let ghost f = |c: CommentV| comment_row(c);
    let mut body = String::new();
    for i in 0..comments.len()
        invariant
            cs == views(comments@),
            f == (|c: CommentV| comment_row(c)),
            body@ == concat_all(cs.take(i as int).map_values(f)),
    {
        let c = &comments[i];
        let row = if eq_chars(&to_chars(c.kind.as_str()), &to_chars("event")) {
            let a = cat(cat(cat("- ⋯ _", c.text.as_str()).as_str(), "_ — ").as_str(), c.author.as_str());
            cat(cat(cat(a.as_str(), "  \n  <sub>").as_str(), c.created.as_str()).as_str(), "</sub>\n")
        } else {
            let a = cat(cat(cat("- **", c.author.as_str()).as_str(), "**").as_str(), anchor_exec(c).as_str());
            let b = cat(cat(cat(a.as_str(), " — ").as_str(), c.text.as_str()).as_str(), "  \n  <sub>");
            cat(cat(cat(cat(b.as_str(), c.created.as_str()).as_str(), " · ").as_str(), c.id.as_str()).as_str(), "</sub>\n")
        };
        assert(row@ =~= comment_row(cs[i as int]));
        assert(cs.take(i + 1).map_values(f) =~= cs.take(i as int).map_values(f).push(f(cs[i as int])));
        assert(cs.take(i + 1).map_values(f).drop_last() =~= cs.take(i as int).map_values(f));
        body = cat(body.as_str(), row.as_str());
    }
    assert(cs.take(comments.len() as int) =~= cs);
    body
}

/// One row of the newest-first list: the target's label, then the comment.
pub open spec fn recent_row(label: Seq<char>, c: CommentV) -> Seq<char> {
    if c.kind == "event"@ {
        "- "@ + label + " — "@ + "⋯ _"@ + c.text + "_ — "@ + c.author + "  \n  <sub>"@ + c.created + "</sub>\n"@
    } else {
        "- "@ + label + " — "@ + "**"@ + c.author + "**"@ + anchor_of(c) + ": "@ + c.text + "  \n  <sub>"@ + c.created
            + " · "@ + c.id + "</sub>\n"@
    }
}

pub open spec fn recent_doc(rows: Seq<(Seq<char>, CommentV)>) -> Seq<char> {
    if rows.len() == 0 {
        "_No comments yet._\n"@
    } else {
        concat_all(rows.map_values(|r: (Seq<char>, CommentV)| recent_row(r.0, r.1)))
    }
}

pub open spec fn labelled(rows: Seq<(String, Comment)>) -> Seq<(Seq<char>, CommentV)> {
    rows.map_values(|r: (String, Comment)| (r.0@, r.1@))
}

/// The flat list of comments across targets, each row led by its target's
/// label, in the order given.
pub fn render_recent_comments(rows: &Vec<(String, Comment)>) -> (r: String)
    ensures
        r@ == recent_doc(labelled(rows@)),
{
    if rows.len() == 0 {
        return from_chars(&to_chars("_No comments yet._\n"));
    }
    let ghost rs = labelled(rows@);
    let ghost f = |r: (Seq<char>, CommentV)| recent_row(r.0, r.1);
    let mut body = String::new();
    for i in 0..rows.len()
        invariant
            rs == labelled(rows@),
            f == (|r: (Seq<char>, CommentV)| recent_row(r.0, r.1)),
            body@ == concat_all(rs.take(i as int).map_values(f)),
    {
        let label = &rows[i].0;
        let c = &rows[i].1;
        let head = cat(cat("- ", label.as_str()).as_str(), " — ");
        let row = if eq_chars(&to_chars(c.kind.as_str()), &to_chars("event")) {
            let a = cat(cat(cat(cat(head.as_str(), "⋯ _").as_str(), c.text.as_str()).as_str(), "_ — ").as_str(), c.author.as_str());
            cat(cat(cat(a.as_str(), "  \n  <sub>").as_str(), c.created.as_str()).as_str(), "</sub>\n")
        } else {
            let a = cat(cat(cat(cat(head.as_str(), "**").as_str(), c.author.as_str()).as_str(), "**").as_str(), anchor_exec(c).as_str());
            let b = cat(cat(cat(a.as_str(), ": ").as_str(), c.text.as_str()).as_str(), "  \n  <sub>");
            cat(cat(cat(cat(b.as_str(), c.created.as_str()).as_str(), " · ").as_str(), c.id.as_str()).as_str(), "</sub>\n")
        };
        assert(rs[i as int] == (label@, c@));
        assert(row@ =~= recent_row(rs[i as int].0, rs[i as int].1));
        assert(rs.take(i + 1).map_values(f) =~= rs.take(i as int).map_values(f).push(f(rs[i as int])));
        assert(rs.take(i + 1).map_values(f).drop_last() =~= rs.take(i as int).map_values(f));
        body = cat(body.as_str(), row.as_str());
    }
    assert(rs.take(rows.len() as int) =~= rs);
    body
}

// ------------------------------------------------------------ subcommand rules
/// Was a flag of that name given at all?
pub open spec fn given_flag(fs: Seq<FlagV>, name: Seq<char>) -> bool {
    exists|i: int| 0 <= i < fs.len() && flag_name(#[trigger] fs[i]) == name
}

/// A value flag's last value, else empty.
pub open spec fn value_or_empty(fs: Seq<FlagV>, name: Seq<char>) -> Seq<char> {
    match last_value(fs, name) {
        Some(v) => v,
        None => Seq::empty(),
    }
}

/// `--github on|off`.
pub open spec fn github_switch(v: Seq<char>) -> Option<bool> {
    if v == "on"@ {
        Some(true)
    } else if v == "off"@ {
        Some(false)
    } else {
        None
    }
}

pub open spec fn github_flag_error(v: Seq<char>) -> Seq<char> {
    "--github must be on|off, got "@ + debug_text(v)
}

/// The field edits `todos update` asks for: a field changes only when its
/// flag was given (the body from `--body` or `--body-file`, read as `body`);
/// none at all when no field flag was given.
pub open spec fn update_fields(fs: Seq<FlagV>, body: Seq<char>) -> Option<crate::todos::UpdateV> {
    let set = |n: Seq<char>| given_flag(fs, n);
    let v = |n: Seq<char>| value_or_empty(fs, n);
    if set("title"@) || set("priority"@) || set("status"@) || set("body"@) || set("body-file"@) || set("tag"@) {
        Some(
            crate::todos::UpdateV {
                title: if set("title"@) { Some(v("title"@)) } else { None },
                body: if set("body"@) || set("body-file"@) { Some(body) } else { None },
                priority: if set("priority"@) { Some(v("priority"@)) } else { None },
                status: if set("status"@) { Some(v("status"@)) } else { None },
                tags: if set("tag"@) { Some(all_values(fs, "tag"@)) } else { None },
                expected_updated: None,
            },
        )
    } else {
        None
    }
}

fn opt_value(p: &Parsed, name: &str) -> (r: Option<String>)
    ensures
        r.deep_view() == (if given_flag(flag_views(p.flags@), name@) { Some(value_or_empty(flag_views(p.flags@), name@)) } else { None }),
{
    proof {
        reveal_strlit("");
    }
    if p.was_set(name) {
        Some(p.str(name, ""))
    } else {
        None
    }
}

/// What `todos update` does from its flags: the field update (if any field
/// flag was given) and the GitHub switch (if `--github` was given), or the
/// error for a `--github` value other than on/off, checked before anything
/// is applied.
pub fn todo_update_request(p: &Parsed, body: String) -> (r: Result<(Option<crate::todos::TodoUpdate>, Option<bool>), String>)
    ensures
        given_flag(flag_views(p.flags@), "github"@) && github_switch(value_or_empty(flag_views(p.flags@), "github"@)) is None
            ==> (r matches Err(m) && m@ == github_flag_error(value_or_empty(flag_views(p.flags@), "github"@))),
        !(given_flag(flag_views(p.flags@), "github"@) && github_switch(value_or_empty(flag_views(p.flags@), "github"@)) is None)
            ==> (r matches Ok(x) && x.1 == (if given_flag(flag_views(p.flags@), "github"@) {
            github_switch(value_or_empty(flag_views(p.flags@), "github"@))
        } else {
            None
        }) && match update_fields(flag_views(p.flags@), body@) {
            Some(u) => x.0 matches Some(t) && t@ == u,
            None => x.0 is None,
        }),
{
    proof {
        reveal_strlit("on");
        reveal_strlit("off");
        reveal_strlit("");
    }
    let ghost fs = flag_views(p.flags@);
    let set_gh = p.was_set("github");
    assert(set_gh == given_flag(fs, "github"@));
    let gh = if set_gh {
        let v = p.str("github", "");
        assert(v@ == value_or_empty(fs, "github"@));
        if eq_chars(&to_chars(v.as_str()), &to_chars("on")) {
            Some(true)
        } else if eq_chars(&to_chars(v.as_str()), &to_chars("off")) {
            Some(false)
        } else {
            return Err(cat("--github must be on|off, got ", debug_str(v.as_str()).as_str()));
        }
    } else {
        None
    };
    let has_fields = p.was_set("title") || p.was_set("priority") || p.was_set("status") || p.was_set("body")
        || p.was_set("body-file") || p.was_set("tag");
    if !has_fields {
        return Ok((None, gh));
    }
    let u = crate::todos::TodoUpdate {
        title: opt_value(p, "title"),
        body: if p.was_set("body") || p.was_set("body-file") { Some(body) } else { None },
        priority: opt_value(p, "priority"),
        status: opt_value(p, "status"),
        tags: if p.was_set("tag") { Some(p.multi("tag")) } else { None },
        expected_updated: None,
    };
    Ok((Some(u), gh))
}

/// Scratchpad subcommands that must name the revision they expect.
pub open spec fn revision_required(sub: Seq<char>) -> bool {
    sub == "update"@ || sub == "rename"@ || sub == "edit"@ || sub == "clear"@ || sub == "archive"@
        || sub == "unarchive"@ || sub == "delete"@
}

/// Refuses a guarded scratchpad subcommand given no expected revision.
pub fn pad_revision_check(sub: &str, expected_revision: i64) -> (r: Result<(), String>)
    ensures
        revision_required(sub@) && expected_revision < 0 ==> (r matches Err(m) && m@ == "--expected-revision is required for "@
            + sub@),
        !(revision_required(sub@) && expected_revision < 0) ==> r is Ok,
{
    let req = crate::text::is_text(sub, "update") || crate::text::is_text(sub, "rename") || crate::text::is_text(sub, "edit")
        || crate::text::is_text(sub, "clear") || crate::text::is_text(sub, "archive") || crate::text::is_text(sub, "unarchive")
        || crate::text::is_text(sub, "delete");
    if req && expected_revision < 0 {
        Err(cat("--expected-revision is required for ", sub))
    } else {
        Ok(())
    }
}

/// What `scratchpads update` changes: the name, body and tags whose flags
/// were given.
pub fn pad_update_parts(p: &Parsed, body: String) -> (r: (Option<String>, Option<String>, Option<Vec<String>>))
    ensures
        r.0.deep_view() == (if given_flag(flag_views(p.flags@), "name"@) { Some(value_or_empty(flag_views(p.flags@), "name"@)) } else { None }),
        r.1.deep_view() == (if given_flag(flag_views(p.flags@), "content"@) || given_flag(flag_views(p.flags@), "content-file"@) { Some(body@) } else { None }),
        r.2.deep_view() == (if given_flag(flag_views(p.flags@), "tag"@) { Some(all_values(flag_views(p.flags@), "tag"@)) } else { None }),
{
    let name = opt_value(p, "name");
    let content = if p.was_set("content") || p.was_set("content-file") { Some(body) } else { None };
    let tags = if p.was_set("tag") { Some(p.multi("tag")) } else { None };
    (name, content, tags)
}

/// The subcommands whose first argument is an id (or a target).
pub open spec fn takes_id(command: Seq<char>, sub: Seq<char>) -> bool {
    if command == "todos"@ {
        sub == "get"@ || sub == "update"@ || sub == "delete"@ || sub == "complete"@ || sub == "incomplete"@
            || sub == "add-tag"@ || sub == "remove-tag"@ || sub == "set-blockers"@ || sub == "add-blocker"@
            || sub == "remove-blocker"@ || sub == "lock"@ || sub == "unlock"@
    } else if command == "scratchpads"@ {
        sub == "read"@ || sub == "update"@ || sub == "append"@ || sub == "append-section"@ || sub == "edit"@
            || sub == "rename"@ || sub == "find"@ || sub == "tail"@ || sub == "clear"@ || sub == "archive"@
            || sub == "unarchive"@ || sub == "delete"@ || sub == "save-to-file"@
    } else if command == "comments"@ {
        sub == "add"@ || sub == "list"@ || sub == "delete"@
    } else {
        false
    }
}

pub fn takes_id_exec(command: &str, sub: &str) -> (b: bool)
    ensures
        b == takes_id(command@, sub@),
{
    let is = |lit: &str| -> (b: bool)
        ensures
            b == (sub@ == lit@),
        { crate::text::is_text(sub, lit) };
    if crate::text::is_text(command, "todos") {
        is("get") || is("update") || is("delete") || is("complete") || is("incomplete") || is("add-tag")
            || is("remove-tag") || is("set-blockers") || is("add-blocker") || is("remove-blocker") || is("lock")
            || is("unlock")
    } else if crate::text::is_text(command, "scratchpads") {
        is("read") || is("update") || is("append") || is("append-section") || is("edit") || is("rename")
            || is("find") || is("tail") || is("clear") || is("archive") || is("unarchive") || is("delete")
            || is("save-to-file")
    } else if crate::text::is_text(command, "comments") {
        is("add") || is("list") || is("delete")
    } else {
        false
    }
}


// ------------------------------------------------------------ store dump
pub open spec fn dump_todo_line(t: TodoV) -> Seq<char> {
    "  ["@ + t.status + "] "@ + t.title + " ("@ + t.id + ")\n"@
}

pub open spec fn dump_pad_line(s: PadV) -> Seq<char> {
    "  "@ + s.title + " ("@ + s.id + ")\n"@
}

/// The store's human summary: the three counts, each todo's status, title
/// and id, and each pad's title and id.
pub open spec fn dump_doc(p: ProjectV) -> Seq<char> {
    "todos: "@ + dec_digits(p.todos.len()) + "\n"@ + concat_all(p.todos.map_values(|t: TodoV| dump_todo_line(t)))
        + "comments: "@ + dec_digits(p.comments.len()) + "\n"@ + "scratchpads: "@ + dec_digits(p.pads.len()) + "\n"@
        + concat_all(p.pads.map_values(|s: PadV| dump_pad_line(s)))
}

fn count_text(n: usize) -> (r: String)
    ensures
        r@ == dec_digits(n as nat),
{
    from_chars(&crate::num::fmt_u64(n as u64))
}

/// The whole store summarized for a person (see `dump_doc`).
pub fn dump_text(p: &Project) -> (r: String)
    ensures
        r@ == dump_doc(p@),
{
    let ghost ts = p@.todos;
    let ghost ft = |t: TodoV| dump_todo_line(t);
    let mut todos = String::new();
    for i in 0..p.todos.len()
        invariant
            ts == p@.todos,
            ft == (|t: TodoV| dump_todo_line(t)),
            todos@ == concat_all(ts.take(i as int).map_values(ft)),
    {
        let t = &p.todos[i];
        let a = cat(cat(cat(cat("  [", t.status.as_str()).as_str(), "] ").as_str(), t.title.as_str()).as_str(), " (");
        let row = cat(cat(a.as_str(), t.id.as_str()).as_str(), ")\n");
        assert(ts[i as int] == t@);
        assert(row@ =~= dump_todo_line(ts[i as int]));
        assert(ts.take(i + 1).map_values(ft).drop_last() =~= ts.take(i as int).map_values(ft));
        todos = cat(todos.as_str(), row.as_str());
    }
    assert(ts.take(p.todos.len() as int) =~= ts);
    let ghost ps = p@.pads;
    let ghost fp = |s: PadV| dump_pad_line(s);
    let mut pads = String::new();
    for i in 0..p.pads.len()
        invariant
            ps == p@.pads,
            fp == (|s: PadV| dump_pad_line(s)),
            pads@ == concat_all(ps.take(i as int).map_values(fp)),
    {
        let s = &p.pads[i];
        let row = cat(cat(cat(cat("  ", s.title.as_str()).as_str(), " (").as_str(), s.id.as_str()).as_str(), ")\n");
        assert(ps[i as int] == s@);
        assert(row@ =~= dump_pad_line(ps[i as int]));
        assert(ps.take(i + 1).map_values(fp).drop_last() =~= ps.take(i as int).map_values(fp));
        pads = cat(pads.as_str(), row.as_str());
    }
    assert(ps.take(p.pads.len() as int) =~= ps);
    let head = cat(cat("todos: ", count_text(p.todos.len()).as_str()).as_str(), "\n");
    let mid = cat(cat(cat(cat("comments: ", count_text(p.comments.len()).as_str()).as_str(), "\n").as_str(), "scratchpads: ").as_str(), count_text(p.pads.len()).as_str());
    let out = cat(cat(cat(cat(head.as_str(), todos.as_str()).as_str(), mid.as_str()).as_str(), "\n").as_str(), pads.as_str());
    proof {
        reveal_strlit("todos: ");
        reveal_strlit("comments: ");
        reveal_strlit("scratchpads: ");
        reveal_strlit("\n");
    }
    assert(out@ =~= dump_doc(p@));
    out
}


// ------------------------------------------------------------ per-target notes
pub open spec fn summary_line(label: Seq<char>, count: int, latest: Seq<char>) -> Seq<char> {
    "- "@ + label + " · 💬"@ + dec_digits(count as nat) + " · last: \""@ + latest + "\"\n"@
}

pub open spec fn summaries_doc(rows: Seq<(Seq<char>, int, Seq<char>)>) -> Seq<char> {
    if rows.len() == 0 {
        "_No comments yet._\n"@
    } else {
        concat_all(rows.map_values(|r: (Seq<char>, int, Seq<char>)| summary_line(r.0, r.1, r.2)))
    }
}

pub open spec fn summary_views(rows: Seq<(String, usize, String)>) -> Seq<(Seq<char>, int, Seq<char>)> {
    rows.map_values(|r: (String, usize, String)| (r.0@, r.1 as int, r.2@))
}

/// The per-target view: each target's label, its note count and its latest
/// note, one line each.
pub fn render_comment_summaries(rows: &Vec<(String, usize, String)>) -> (r: String)
    ensures
        r@ == summaries_doc(summary_views(rows@)),
{
    if rows.len() == 0 {
        return from_chars(&to_chars("_No comments yet._\n"));
    }
    let ghost rs = summary_views(rows@);
    let ghost f = |r: (Seq<char>, int, Seq<char>)| summary_line(r.0, r.1, r.2);
    let mut body = String::new();
    for i in 0..rows.len()
        invariant
            rs == summary_views(rows@),
            f == (|r: (Seq<char>, int, Seq<char>)| summary_line(r.0, r.1, r.2)),
            body@ == concat_all(rs.take(i as int).map_values(f)),
    {
        let (label, count, latest) = (&rows[i].0, rows[i].1, &rows[i].2);
        let n = from_chars(&fmt_u64(count as u64));
        let a = cat(cat(cat(cat("- ", label.as_str()).as_str(), " · 💬").as_str(), n.as_str()).as_str(), " · last: \"");
        let row = cat(cat(a.as_str(), latest.as_str()).as_str(), "\"\n");
        assert(rs[i as int] == (label@, count as int, latest@));
        assert(row@ =~= f(rs[i as int]));
        assert(rs.take(i + 1).map_values(f).drop_last() =~= rs.take(i as int).map_values(f));
        body = cat(body.as_str(), row.as_str());
    }
    assert(rs.take(rows.len() as int) =~= rs);
    body
}

} // verus!
