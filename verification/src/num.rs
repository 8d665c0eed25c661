//! Decimal formatting and `str::parse::<i64>` over characters.
use vstd::prelude::*;

verus! {

pub open spec fn is_digit(c: char) -> bool {
    '0' <= c && c <= '9'
}

pub open spec fn digit_val(c: char) -> int {
    (c as int) - ('0' as int)
}

pub open spec fn digit_char(n: int) -> char {
    (('0' as int) + n) as char
}

/// Every character is an ASCII digit.
pub open spec fn all_digits(s: Seq<char>) -> bool {
    forall|i: int| 0 <= i < s.len() ==> is_digit(#[trigger] s[i])
}

/// The number a run of decimal digits spells.
pub open spec fn dec_value(s: Seq<char>) -> nat
    decreases s.len(),
{
    if s.len() == 0 {
        0
    } else {
        (dec_value(s.drop_last()) * 10 + digit_val(s.last())) as nat
    }
}

/// The decimal spelling of `n`, without leading zeros.
pub open spec fn dec_digits(n: nat) -> Seq<char>
    decreases n,
{
    if n < 10 {
        seq![digit_char(n as int)]
    } else {
        dec_digits(n / 10).push(digit_char((n % 10) as int))
    }
}

/// `n` spelled in decimal, left-padded with zeros to at least `w` characters
/// (`format!("{n:0w$}")` for a non-negative `n`).
pub open spec fn dec_padded(n: nat, w: nat) -> Seq<char> {
    let d = dec_digits(n);
    if d.len() >= w {
        d
    } else {
        Seq::new((w - d.len()) as nat, |i: int| '0') + d
    }
}

/// `i64::to_string`: a minus sign for negative values, then the digits.
pub open spec fn int_text(n: int) -> Seq<char> {
    if n < 0 {
        seq!['-'] + dec_digits((-n) as nat)
    } else {
        dec_digits(n as nat)
    }
}

/// What `s.parse::<i64>()` accepts: an optional `+` or `-`, then at least
/// one ASCII digit and nothing else, with the value inside the `i64` range.
pub open spec fn parse_int(s: Seq<char>) -> Option<int> {
    if s.len() > 1 && s[0] == '-' && all_digits(s.drop_first()) {
        let v = -(dec_value(s.drop_first()) as int);
        if v >= i64::MIN {
            Some(v)
        } else {
            None
        }
    } else if s.len() > 1 && s[0] == '+' && all_digits(s.drop_first()) {
        let v = dec_value(s.drop_first()) as int;
        if v <= i64::MAX {
            Some(v)
        } else {
            None
        }
    } else if s.len() > 0 && all_digits(s) {
        let v = dec_value(s) as int;
        if v <= i64::MAX {
            Some(v)
        } else {
            None
        }
    } else {
        None
    }
}

pub proof fn lemma_dec_digits_ok(n: nat)
    ensures
        all_digits(dec_digits(n)),
        dec_digits(n).len() >= 1,
        dec_value(dec_digits(n)) == n,
        dec_digits(n)[0] != '0' || n == 0,
    decreases n,
{
    assert(digit_val(digit_char((n % 10) as int)) == n % 10);
    if n < 10 {
        assert(digit_val(digit_char(n as int)) == n);
        assert(dec_digits(n).drop_last() =~= Seq::<char>::empty());
        assert(dec_value(dec_digits(n)) == dec_value(Seq::<char>::empty()) * 10 + digit_val(
            digit_char(n as int),
        ));
    }
    if n >= 10 {
        lemma_dec_digits_ok(n / 10);
        let d = dec_digits(n / 10);
        assert(dec_digits(n).drop_last() == d);
        assert(dec_digits(n)[0] == d[0]);
        assert(dec_digits(n).last() == digit_char((n % 10) as int));
        assert(dec_value(dec_digits(n)) == dec_value(d) * 10 + digit_val(digit_char(
            (n % 10) as int,
        )));
        assert((n / 10) * 10 + n % 10 == n);
    }
}

pub proof fn lemma_dec_value_bound(s: Seq<char>)
    requires
        all_digits(s),
    ensures
        dec_value(s) < pow10(s.len()),
    decreases s.len(),
{
    if s.len() > 0 {
        lemma_dec_value_bound(s.drop_last());
    }
}

pub open spec fn pow10(n: nat) -> nat
    decreases n,
{
    if n == 0 {
        1
    } else {
        10 * pow10((n - 1) as nat)
    }
}

/// Parsing the decimal spelling of an `i64` gives it back.
pub proof fn lemma_parse_int_text(n: i64)
    ensures
        parse_int(int_text(n as int)) == Some(n as int),
{
    if n < 0 {
        let m = (-n) as nat;
        lemma_dec_digits_ok(m);
        let s = int_text(n as int);
        assert(s.drop_first() == dec_digits(m));
    } else {
        lemma_dec_digits_ok(n as nat);
        let s = int_text(n as int);
        if s.len() > 1 && s[0] == '-' {
            assert(!is_digit(s[0]));
        }
        if s.len() > 1 && s[0] == '+' {
            assert(!is_digit(s[0]));
        }
    }
}

/// The decimal digits of `n`.
pub fn fmt_u64(n: u64) -> (r: Vec<char>)
    ensures
        r@ == dec_digits(n as nat),
    decreases n,
{
    let d = ((n % 10) as u8 + 48) as char;
    assert(d == digit_char((n % 10) as int));
    if n < 10 {
        let mut r: Vec<char> = Vec::new();
        r.push(d);
        r
    } else {
        let mut r = fmt_u64(n / 10);
        r.push(d);
        r
    }
}

/// `n` left-padded with zeros to `w` characters.
pub fn fmt_u64_padded(n: u64, w: usize) -> (r: Vec<char>)
    ensures
        r@ == dec_padded(n as nat, w as nat),
{
    let d = fmt_u64(n);
    if d.len() >= w {
        return d;
    }
    let mut r: Vec<char> = Vec::new();
    let z = w - d.len();
    for i in 0..z
        invariant
            z == w - d.len(),
            r@ == Seq::new(i as nat, |j: int| '0'),
    {
        r.push('0');
        assert(r@ =~= Seq::new((i + 1) as nat, |j: int| '0'));
    }
    for i in 0..d.len()
        invariant
            r@ == Seq::new(z as nat, |j: int| '0') + d@.take(i as int),
    {
        r.push(d[i]);
        assert(d@.take(i + 1) == d@.take(i as int).push(d@[i as int]));
        assert(r@ =~= Seq::new(z as nat, |j: int| '0') + d@.take(i + 1));
    }
    assert(d@.take(d.len() as int) == d@);
    r
}

/// `i64::to_string`.
pub fn fmt_i64(n: i64) -> (r: Vec<char>)
    ensures
        r@ == int_text(n as int),
{
    if n < 0 {
        let m: u64 = if n == i64::MIN {
            9223372036854775808u64
        } else {
            (-n) as u64
        };
        let d = fmt_u64(m);
        let mut r: Vec<char> = Vec::new();
        r.push('-');
        for i in 0..d.len()
            invariant
                r@ == seq!['-'] + d@.take(i as int),
        {
            r.push(d[i]);
            assert(d@.take(i + 1) == d@.take(i as int).push(d@[i as int]));
            assert(r@ =~= seq!['-'] + d@.take(i + 1));
        }
        assert(d@.take(d.len() as int) == d@);
        r
    } else {
        fmt_u64(n as u64)
    }
}

/// Value of the digit run `s[from..to]`, or `None` if it holds a non-digit
/// or its value exceeds `limit`.
fn digits_value(s: &Vec<char>, from: usize, limit: u64) -> (r: Option<u64>)
    requires
        from <= s.len(),
        limit >= 9,
    ensures
        r matches Some(v) ==> all_digits(s@.skip(from as int)) && v == dec_value(s@.skip(
            from as int,
        )) && v <= limit,
        r is None ==> !all_digits(s@.skip(from as int)) || dec_value(s@.skip(from as int))
            > limit,
{
    let mut v: u64 = 0;
    let mut i = from;
    let ghost t = s@.skip(from as int);
    while i < s.len()
        invariant
            from <= i <= s.len(),
            t == s@.skip(from as int),
            all_digits(t.take(i - from)),
            v == dec_value(t.take(i - from)),
            v <= limit,
            limit >= 9,
        decreases s.len() - i,
    {
        let c = s[i];
        assert(t.take(i + 1 - from).drop_last() == t.take(i - from));
        assert(t.take(i + 1 - from).last() == c);
        if c < '0' || c > '9' {
            assert(!is_digit(t[i - from]));
            return None;
        }
        let dv = (c as u32 - 48) as u64;
        if v > (limit - dv) / 10 {
            proof {
                assert(all_digits(t.take(i + 1 - from)));
                assert(dec_value(t.take(i + 1 - from)) > limit) by (nonlinear_arith)
                    requires
                        dec_value(t.take(i + 1 - from)) == v * 10 + dv,
                        v > (limit - dv) / 10,
                        dv <= 9,
                        limit >= 0,
                ;
                lemma_dec_prefix_monotone(t, (i + 1 - from) as nat);
            }
            return None;
        }
        assert(v * 10 + dv <= limit) by (nonlinear_arith)
            requires
                v <= (limit - dv) / 10,
                dv <= 9,
                dv <= limit,
        ;
        v = v * 10 + dv;
        i += 1;
    }
    assert(t.take(i - from) == t);
    Some(v)
}

/// Once a digit prefix exceeds a bound, so does the whole digit run.
proof fn lemma_dec_prefix_monotone(t: Seq<char>, k: nat)
    requires
        k <= t.len(),
    ensures
        all_digits(t) ==> dec_value(t.take(k as int)) <= dec_value(t),
    decreases t.len() - k,
{
    if k < t.len() && all_digits(t) {
        lemma_dec_prefix_monotone(t, k + 1);
        assert(t.take(k + 1 as int).drop_last() == t.take(k as int));
        assert(is_digit(t[k as int]));
    } else if k == t.len() {
        assert(t.take(k as int) == t);
    }
}

/// `s.parse::<i64>().ok()`.
pub fn parse_i64(s: &Vec<char>) -> (r: Option<i64>)
    ensures
        r matches Some(v) ==> parse_int(s@) == Some(v as int),
        r is None ==> parse_int(s@) is None,
{
    if s.len() > 1 && s[0] == '-' {
        assert(!is_digit(s@[0]));
        match digits_value(s, 1, 9223372036854775808u64) {
            Some(v) => {
                let r: i64 = if v == 9223372036854775808u64 {
                    i64::MIN
                } else {
                    -(v as i64)
                };
                Some(r)
            },
            None => None,
        }
    } else if s.len() > 1 && s[0] == '+' {
        assert(!is_digit(s@[0]));
        match digits_value(s, 1, 9223372036854775807u64) {
            Some(v) => Some(v as i64),
            None => None,
        }
    } else if s.len() > 0 {
        assert(s@.skip(0) == s@);
        match digits_value(s, 0, 9223372036854775807u64) {
            Some(v) => Some(v as i64),
            None => None,
        }
    } else {
        None
    }
}

/// The decimal spelling of a number below `10^k` has at most `k` digits.
pub proof fn lemma_dec_digits_len(n: nat, k: nat)
    requires
        k >= 1,
        n < pow10(k),
    ensures
        dec_digits(n).len() <= k,
    decreases n,
{
    if n >= 10 {
        assert(k >= 2) by {
            if k == 1 {
                assert(pow10(1) == 10 * pow10(0));
            }
        }
        assert(pow10(k) == 10 * pow10((k - 1) as nat));
        assert(n / 10 < pow10((k - 1) as nat));
        lemma_dec_digits_len(n / 10, (k - 1) as nat);
    }
}

proof fn lemma_dec_value_zeros(c: nat)
    ensures
        dec_value(Seq::new(c, |i: int| '0')) == 0,
        all_digits(Seq::new(c, |i: int| '0')),
    decreases c,
{
    if c > 0 {
        lemma_dec_value_zeros((c - 1) as nat);
        assert(Seq::new(c, |i: int| '0').drop_last() =~= Seq::new((c - 1) as nat, |i: int| '0'));
    }
}

/// Leading zeros do not change a digit run's value.
proof fn lemma_dec_value_pad(c: nat, d: Seq<char>)
    requires
        all_digits(d),
    ensures
        dec_value(Seq::new(c, |i: int| '0') + d) == dec_value(d),
        all_digits(Seq::new(c, |i: int| '0') + d),
    decreases d.len(),
{
    let z = Seq::new(c, |i: int| '0');
    lemma_dec_value_zeros(c);
    if d.len() == 0 {
        assert(z + d =~= z);
    } else {
        let d0 = d.drop_last();
        assert(all_digits(d0)) by {
            assert forall|i: int| 0 <= i < d0.len() implies is_digit(#[trigger] d0[i]) by {
                assert(d0[i] == d[i]);
            }
        }
        lemma_dec_value_pad(c, d0);
        assert((z + d).drop_last() =~= z + d0);
        assert((z + d).last() == d.last());
    }
    assert forall|i: int| 0 <= i < (z + d).len() implies is_digit(#[trigger] (z + d)[i]) by {
        if i >= c {
            assert((z + d)[i] == d[i - c]);
        }
    }
}

/// A number below `10^w` written zero-padded to `w` digits takes exactly `w`
/// characters and parses back to itself.
pub proof fn lemma_padded_parse(n: nat, w: nat)
    requires
        1 <= w <= 18,
        n < pow10(w),
    ensures
        dec_padded(n, w).len() == w,
        parse_int(dec_padded(n, w)) == Some(n as int),
{
    let d = dec_digits(n);
    lemma_dec_digits_ok(n);
    lemma_dec_digits_len(n, w);
    let c = (w - d.len()) as nat;
    lemma_dec_value_pad(c, d);
    let s = dec_padded(n, w);
    if d.len() >= w {
        assert(Seq::new(0, |i: int| '0') + d =~= d);
        assert(s == d);
    } else {
        assert(s == Seq::new(c, |i: int| '0') + d);
    }
    assert(dec_value(s) == n);
    assert(all_digits(s));
    assert(is_digit(s[0]));
    lemma_pow10_small(w);
}

proof fn lemma_pow10_small(w: nat)
    requires
        w <= 18,
    ensures
        pow10(w) <= 1_000_000_000_000_000_000,
    decreases 18 - w,
{
    if w < 18 {
        lemma_pow10_small(w + 1);
        assert(pow10(w + 1) == 10 * pow10(w));
    } else {
        reveal_with_fuel(pow10, 19);
    }
}

} // verus!
