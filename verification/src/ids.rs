//! Short, sortable ids like "t_l8x2ab3": base36 clock nanoseconds followed by
//! a base36 counter modulo 1296 (36 squared).
use vstd::prelude::*;
use crate::text::{from_chars, to_chars};

verus! {

pub open spec fn b36_char(n: int) -> char {
    if n < 10 {
        (('0' as int) + n) as char
    } else {
        (('a' as int) + n - 10) as char
    }
}

/// The base-36 spelling of `n` with lower-case letters, no leading zeros.
pub open spec fn b36_digits(n: nat) -> Seq<char>
    decreases n,
{
    if n < 36 {
        seq![b36_char(n as int)]
    } else {
        b36_digits(n / 36).push(b36_char((n % 36) as int))
    }
}

fn b36_char_exec(n: u64) -> (c: char)
    requires
        n < 36,
    ensures
        c == b36_char(n as int),
{
    if n < 10 {
        ((n as u8) + 48) as char
    } else {
        ((n as u8) + 87) as char
    }
}

fn b36_chars(n: u64) -> (r: Vec<char>)
    ensures
        r@ == b36_digits(n as nat),
    decreases n,
{
    let c = b36_char_exec(n % 36);
    if n < 36 {
        let mut r: Vec<char> = Vec::new();
        r.push(c);
        r
    } else {
        let mut r = b36_chars(n / 36);
        r.push(c);
        r
    }
}

/// `n` in base 36.
pub fn base36(n: u64) -> (s: String)
    ensures
        s@ == b36_digits(n as nat),
{
    from_chars(&b36_chars(n))
}

/// The id made from a prefix, a clock reading and a counter value.
pub open spec fn id_text(prefix: Seq<char>, nanos: nat, n: nat) -> Seq<char> {
    prefix + b36_digits(nanos) + b36_digits(n % 1296)
}

/// Some id with the given prefix.
pub open spec fn is_id(prefix: Seq<char>, s: Seq<char>) -> bool {
    exists|nanos: u64, n: u64| s == id_text(prefix, nanos as nat, n as nat)
}

/// `format!("{prefix}{}{}", base36(nanos), base36(n % 1296))`.
pub fn new_id(prefix: &str, nanos: u64, n: u64) -> (s: String)
    ensures
        s@ == id_text(prefix@, nanos as nat, n as nat),
{
    let mut v = to_chars(prefix);
    let a = b36_chars(nanos);
    let b = b36_chars(n % 1296);
    let ghost v0 = v@;
    for i in 0..a.len()
        invariant
            v@ == v0 + a@.take(i as int),
    {
        v.push(a[i]);
        assert(a@.take(i + 1) == a@.take(i as int).push(a@[i as int]));
        assert(v@ =~= v0 + a@.take(i + 1));
    }
    assert(a@.take(a.len() as int) == a@);
    let ghost v1 = v@;
    for i in 0..b.len()
        invariant
            v@ == v1 + b@.take(i as int),
    {
        v.push(b[i]);
        assert(b@.take(i + 1) == b@.take(i as int).push(b@[i as int]));
        assert(v@ =~= v1 + b@.take(i + 1));
    }
    assert(b@.take(b.len() as int) == b@);
    let s = from_chars(&v);
    assert(s@ =~= id_text(prefix@, nanos as nat, n as nat));
    s
}

} // verus!
