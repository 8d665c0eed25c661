//! Calendar arithmetic and the fixed-width RFC 3339 timestamps the store
//! writes ("YYYY-MM-DDTHH:MM:SSZ", UTC, second precision).
use vstd::prelude::*;
use crate::num::{dec_padded, fmt_u64, fmt_u64_padded, parse_i64, parse_int, dec_digits, pow10, lemma_padded_parse};
use crate::text::{from_chars, to_chars, slice_chars};

verus! {

/// Seconds since the Unix epoch, read from the system clock. The value depends
/// on the time of the call; nothing is promised about it.
#[verifier::external_body]
pub fn now_unix() -> u64 {
    match std::time::SystemTime::now().duration_since(std::time::UNIX_EPOCH) {
        Ok(d) => d.as_secs(),
        Err(_) => 0,
    }
}

/// Nanoseconds since the Unix epoch (the low 64 bits), read from the system
/// clock. Nothing is promised about the value.
#[verifier::external_body]
pub(crate) fn now_unix_nanos() -> u64 {
    match std::time::SystemTime::now().duration_since(std::time::UNIX_EPOCH) {
        Ok(d) => d.as_nanos() as u64,
        Err(_) => 0,
    }
}

// ------------------------------------------------------------ the calendar
pub open spec fn is_leap(y: int) -> bool {
    (y % 4 == 0 && y % 100 != 0) || y % 400 == 0
}

pub open spec fn year_len(y: int) -> int {
    if is_leap(y) {
        366
    } else {
        365
    }
}

pub open spec fn month_len(y: int, m: int) -> int {
    if m == 2 {
        if is_leap(y) {
            29
        } else {
            28
        }
    } else if m == 4 || m == 6 || m == 9 || m == 11 {
        30
    } else {
        31
    }
}

/// Leap years among 1 ..= y - 1.
pub open spec fn leaps_before(y: int) -> int {
    (y - 1) / 4 - (y - 1) / 100 + (y - 1) / 400
}

/// Days from 1970-01-01 to the first day of year `y`.
pub open spec fn days_before_year(y: int) -> int {
    365 * (y - 1970) + leaps_before(y) - leaps_before(1970)
}

/// Days from the first of January to the first of month `m` in year `y`.
pub open spec fn days_before_month(y: int, m: int) -> int
    decreases m,
{
    if m <= 1 {
        0
    } else {
        days_before_month(y, m - 1) + month_len(y, m - 1)
    }
}

/// Days from 1970-01-01 to the given date.
pub open spec fn civil_days(y: int, m: int, d: int) -> int {
    days_before_year(y) + days_before_month(y, m) + d - 1
}

/// A real calendar date from 1970 on.
pub open spec fn valid_date(y: int, m: int, d: int) -> bool {
    y >= 1970 && 1 <= m <= 12 && 1 <= d <= month_len(y, m)
}

/// The date `z` days after 1970-01-01.
pub open spec fn civil_of(z: int) -> (int, int, int) {
    choose|y: int, m: int, d: int| valid_date(y, m, d) && civil_days(y, m, d) == z
}

pub proof fn lemma_year_step(y: int)
    requires
        y >= 1,
    ensures
        days_before_year(y + 1) == days_before_year(y) + year_len(y),
{
    assert(y / 4 - (y - 1) / 4 == if y % 4 == 0 { 1int } else { 0int });
    assert(y / 100 - (y - 1) / 100 == if y % 100 == 0 { 1int } else { 0int });
    assert(y / 400 - (y - 1) / 400 == if y % 400 == 0 { 1int } else { 0int });
}

pub proof fn lemma_era_step(y: int)
    requires
        y >= 1,
    ensures
        days_before_year(y + 400) == days_before_year(y) + 146097,
{
    assert((y + 399) / 4 == (y - 1) / 4 + 100);
    assert((y + 399) / 100 == (y - 1) / 100 + 4);
    assert((y + 399) / 400 == (y - 1) / 400 + 1);
}

pub proof fn lemma_year_months(y: int)
    ensures
        days_before_month(y, 13) == year_len(y),
        forall|m: int| 1 <= m <= 12 ==> 0 <= #[trigger] days_before_month(y, m) && days_before_month(y, m)
            + month_len(y, m) == days_before_month(y, m + 1),
{
    reveal_with_fuel(days_before_month, 13);
}

pub proof fn lemma_months_monotone(y: int, m1: int, m2: int)
    requires
        1 <= m1 <= m2 <= 13,
    ensures
        days_before_month(y, m1) + (if m1 < m2 { month_len(y, m1) } else { 0 }) <= days_before_month(y, m2),
    decreases m2 - m1,
{
    if m1 < m2 {
        lemma_months_monotone(y, m1 + 1, m2);
        lemma_year_months(y);
    }
}

pub proof fn lemma_years_monotone(y1: int, y2: int)
    requires
        1 <= y1 <= y2,
    ensures
        days_before_year(y1) + (if y1 < y2 { year_len(y1) } else { 0 }) <= days_before_year(y2),
    decreases y2 - y1,
{
    if y1 < y2 {
        lemma_years_monotone(y1 + 1, y2);
        lemma_year_step(y1);
    }
}

/// A valid date lies inside its year's span of days.
pub proof fn lemma_date_in_year(y: int, m: int, d: int)
    requires
        valid_date(y, m, d),
    ensures
        days_before_year(y) <= civil_days(y, m, d) < days_before_year(y) + year_len(y),
        days_before_month(y, m) <= civil_days(y, m, d) - days_before_year(y) < days_before_month(y, m)
            + month_len(y, m),
{
    lemma_year_months(y);
    lemma_months_monotone(y, m, 13);
}

/// Distinct valid dates have distinct day numbers.
pub proof fn lemma_civil_unique(y1: int, m1: int, d1: int, y2: int, m2: int, d2: int)
    requires
        valid_date(y1, m1, d1),
        valid_date(y2, m2, d2),
        civil_days(y1, m1, d1) == civil_days(y2, m2, d2),
    ensures
        y1 == y2 && m1 == m2 && d1 == d2,
{
    lemma_date_in_year(y1, m1, d1);
    lemma_date_in_year(y2, m2, d2);
    if y1 < y2 {
        lemma_years_monotone(y1, y2);
    } else if y2 < y1 {
        lemma_years_monotone(y2, y1);
    }
    if m1 < m2 {
        lemma_months_monotone(y1, m1, m2);
    } else if m2 < m1 {
        lemma_months_monotone(y1, m2, m1);
    }
}

/// The Gregorian date `z` days after 1970-01-01.
pub fn civil_from_days(z: u64) -> (r: (u64, u32, u32))
    requires
        z <= 1_000_000_000_000_000,
    ensures
        valid_date(r.0 as int, r.1 as int, r.2 as int),
        civil_days(r.0 as int, r.1 as int, r.2 as int) == z,
        civil_of(z as int) == (r.0 as int, r.1 as int, r.2 as int),
{
    let mut y: u64 = 1970 + 400 * (z / 146097);
    let mut rem: u64 = z % 146097;
    proof {
        let k = (z / 146097) as int;
        lemma_eras(k as nat);
        assert(days_before_year(y as int) == 146097 * k);
    }
    let y0 = y;
    loop
        invariant
            y >= y0 >= 1970,
            y0 <= 1970 + 400 * (z / 146097),
            rem + 365 * (y - y0) < 146097,
            z <= 1_000_000_000_000_000,
            days_before_year(y as int) + rem == z,
        ensures
            y >= 1970,
            days_before_year(y as int) + rem == z,
            rem < year_len(y as int),
        decreases rem,
    {
        let yl: u64 = if is_leap_u64(y) { 366 } else { 365 };
        if rem < yl {
            break;
        }
        proof {
            lemma_year_step(y as int);
        }
        rem = rem - yl;
        y = y + 1;
    }
    let mut m: u32 = 1;
    proof {
        lemma_year_months(y as int);
    }
    loop
        invariant
            1 <= m <= 12,
            y >= 1970,
            days_before_month(y as int, m as int) + rem < year_len(y as int),
            days_before_year(y as int) + days_before_month(y as int, m as int) + rem == z,
            forall|k: int| 1 <= k <= 12 ==> 0 <= #[trigger] days_before_month(y as int, k)
                && days_before_month(y as int, k) + month_len(y as int, k) == days_before_month(y as int, k + 1),
            days_before_month(y as int, 13) == year_len(y as int),
        ensures
            1 <= m <= 12,
            days_before_year(y as int) + days_before_month(y as int, m as int) + rem == z,
            rem < month_len(y as int, m as int),
        decreases 12 - m,
    {
        let ml = month_len_u64(y, m);
        if rem < ml {
            break;
        }
        rem = rem - ml;
        if m == 12 {
            assert(false);
        }
        m = m + 1;
    }
    let d = (rem + 1) as u32;
    proof {
        assert(valid_date(y as int, m as int, d as int) && civil_days(y as int, m as int, d as int) == z);
        assert(exists|yy: int, mm: int, dd: int| valid_date(yy, mm, dd) && civil_days(yy, mm, dd) == z);
        let c = civil_of(z as int);
        lemma_civil_unique(c.0, c.1, c.2, y as int, m as int, d as int);
    }
    (y, m, d)
}

proof fn lemma_eras(j: nat)
    ensures
        days_before_year(1970 + 400 * j as int) == 146097 * j,
    decreases j,
{
    if j > 0 {
        lemma_eras((j - 1) as nat);
        lemma_era_step(1970 + 400 * (j - 1));
    }
}

fn is_leap_u64(y: u64) -> (b: bool)
    ensures
        b == is_leap(y as int),
{
    (y % 4 == 0 && y % 100 != 0) || y % 400 == 0
}

fn month_len_u64(y: u64, m: u32) -> (r: u64)
    ensures
        r == month_len(y as int, m as int),
{
    if m == 2 {
        if is_leap_u64(y) {
            29
        } else {
            28
        }
    } else if m == 4 || m == 6 || m == 9 || m == 11 {
        30
    } else {
        31
    }
}


/// Every day from 1970-01-01 on is some valid date.
pub proof fn lemma_date_exists(z: int)
    requires
        z >= 0,
    ensures
        exists|y: int, m: int, d: int| valid_date(y, m, d) && civil_days(y, m, d) == z,
    decreases z,
{
    if z == 0 {
        assert(valid_date(1970, 1, 1) && civil_days(1970, 1, 1) == 0);
    } else {
        lemma_date_exists(z - 1);
        let (y, m, d) = choose|y: int, m: int, d: int| valid_date(y, m, d) && civil_days(y, m, d) == z - 1;
        lemma_year_months(y);
        if d < month_len(y, m) {
            assert(valid_date(y, m, d + 1) && civil_days(y, m, d + 1) == z);
        } else if m < 12 {
            assert(valid_date(y, m + 1, 1) && civil_days(y, m + 1, 1) == z);
        } else {
            lemma_year_step(y);
            assert(days_before_month(y + 1, 1) == 0);
            assert(valid_date(y + 1, 1, 1) && civil_days(y + 1, 1, 1) == z);
        }
    }
}

/// `civil_of` names the date of a day from the epoch on.
pub proof fn lemma_civil_of(z: int)
    requires
        z >= 0,
    ensures
        valid_date(civil_of(z).0, civil_of(z).1, civil_of(z).2),
        civil_days(civil_of(z).0, civil_of(z).1, civil_of(z).2) == z,
{
    lemma_date_exists(z);
}

/// Hinnant's closed form agrees with the calendar on real dates.
#[verifier::rlimit(40)]
pub proof fn lemma_hinnant_civil(y: int, m: int, d: int)
    requires
        y >= 1970,
        1 <= m <= 12,
    ensures
        hinnant_days(y, m, d) == civil_days(y, m, d),
{
    reveal_with_fuel(days_before_month, 13);
    let y2 = if m <= 2 { y - 1 } else { y };
    let era = y2 / 400;
    let yoe = y2 - era * 400;
    assert(0 <= yoe < 400);
    assert(y2 / 4 == era * 100 + yoe / 4);
    assert(y2 / 100 == era * 4 + yoe / 100);
    assert(146097 * era + 365 * yoe + yoe / 4 - yoe / 100 == 365 * y2 + y2 / 4 - y2 / 100 + y2 / 400);
    assert(y / 4 - (y - 1) / 4 == if y % 4 == 0 { 1int } else { 0int });
    assert(y / 100 - (y - 1) / 100 == if y % 100 == 0 { 1int } else { 0int });
    assert(y / 400 - (y - 1) / 400 == if y % 400 == 0 { 1int } else { 0int });
    assert(leaps_before(1970) == 477);
}


// ------------------------------------------------------------ RFC 3339
/// `format!("{y:04}-{m:02}-{d:02}T{h:02}:{mi:02}:{s:02}Z")` for the date and
/// time of day `secs` seconds after the epoch.
pub open spec fn rfc3339_text(secs: int) -> Seq<char> {
    let (y, m, d) = civil_of(secs / 86400);
    let rem = secs % 86400;
    dec_padded(y as nat, 4) + seq!['-'] + dec_padded(m as nat, 2) + seq!['-'] + dec_padded(
        d as nat,
        2,
    ) + seq!['T'] + dec_padded((rem / 3600) as nat, 2) + seq![':'] + dec_padded(
        ((rem % 3600) / 60) as nat,
        2,
    ) + seq![':'] + dec_padded((rem % 60) as nat, 2) + seq!['Z']
}

/// Pushes `b` onto `a`.
fn push_all(a: &mut Vec<char>, b: &Vec<char>)
    ensures
        final(a)@ == old(a)@ + b@,
{
    let ghost a0 = a@;
    for i in 0..b.len()
        invariant
            a@ == a0 + b@.take(i as int),
    {
        a.push(b[i]);
        assert(b@.take(i + 1) == b@.take(i as int).push(b@[i as int]));
        assert(a@ =~= a0 + b@.take(i + 1));
    }
    assert(b@.take(b.len() as int) == b@);
}

/// RFC 3339 UTC at second precision ("2026-07-09T18:00:00Z").
#[verifier::spinoff_prover]
#[verifier::rlimit(40)]
pub fn format_rfc3339(secs: u64) -> (r: String)
    ensures
        r@ == rfc3339_text(secs as int),
{
    let (y, m, d) = civil_from_days(secs / 86400);
    let rem = secs % 86400;
    let mut v = fmt_u64_padded(y, 4);
    v.push('-');
    push_all(&mut v, &fmt_u64_padded(m as u64, 2));
    v.push('-');
    push_all(&mut v, &fmt_u64_padded(d as u64, 2));
    v.push('T');
    push_all(&mut v, &fmt_u64_padded(rem / 3600, 2));
    v.push(':');
    push_all(&mut v, &fmt_u64_padded((rem % 3600) / 60, 2));
    v.push(':');
    push_all(&mut v, &fmt_u64_padded(rem % 60, 2));
    v.push('Z');
    let r = from_chars(&v);
    assert(r@ =~= rfc3339_text(secs as int));
    r
}

/// Some second's RFC 3339 stamp.
pub open spec fn is_stamp(s: Seq<char>) -> bool {
    exists|secs: u64| s == rfc3339_text(secs as int)
}

/// The current time as an RFC 3339 stamp.
pub fn now() -> (r: String)
    ensures
        is_stamp(r@),
{
    let secs = now_unix();
    let r = format_rfc3339(secs);
    assert(r@ == rfc3339_text(secs as int));
    r
}

/// Howard Hinnant's days_from_civil, exactly as computed on `i64` with
/// truncating division: days since 1970-01-01 for year `y`, month `m`, day
/// `d` (any values, not only calendar ones).
pub open spec fn hinnant_days(y: int, m: int, d: int) -> int {
    let y2 = if m <= 2 { y - 1 } else { y };
    let era = if y2 >= 0 { y2 / 400 } else { -((399 - y2) / 400) };
    let yoe = y2 - era * 400;
    let mp = if m > 2 { m - 3 } else { m + 9 };
    let doy = (153 * mp + 2) / 5 + d - 1;
    let doe = yoe * 365 + yoe / 4 - yoe / 100 + doy;
    era * 146097 + doe - 719468
}

/// `days_from_civil` on the values the timestamp parser produces.
fn days_from_civil(y: i64, m: u32, d: u32) -> (r: i64)
    requires
        -10000 <= y <= 10000,
    ensures
        r == hinnant_days(y as int, m as int, d as int),
{
    let y2: i64 = if m <= 2 { y - 1 } else { y };
    let era: i64 = if y2 >= 0 {
        ((y2 as u64) / 400) as i64
    } else {
        -((((399 - y2) as u64) / 400) as i64)
    };
    let yoe: i64 = y2 - era * 400;
    assert(0 <= yoe < 400) by {
        if y2 < 0 {
            assert((399 - y2) / 400 * 400 <= 399 - y2);
            assert((399 - y2) - (399 - y2) / 400 * 400 < 400);
        }
    }
    let mp: u64 = if m > 2 { (m - 3) as u64 } else { (m + 9) as u64 };
    let doy: i64 = ((153 * mp + 2) / 5) as i64 + d as i64 - 1;
    let yo = yoe as u64;
    let doe: i64 = yoe * 365 + (yo / 4) as i64 - (yo / 100) as i64 + doy;
    era * 146097 + doe - 719468
}

/// The value `s.get(from..from+len)?.parse::<i64>().ok()` yields on a string
/// whose characters are `s`.
pub open spec fn field(s: Seq<char>, from: int, len: int) -> Option<int> {
    parse_int(s.subrange(from, from + len))
}

/// What the timestamp parser returns: seconds since the epoch for a string of
/// the fixed shape `YYYY-MM-DDTHH:MM:SSZ` whose numeric fields parse as
/// integers (month and day taken as `u32`), if that count is non-negative and
/// fits a `u64`; `None` otherwise.
pub open spec fn rfc3339_epoch(s: Seq<char>) -> Option<int> {
    if s.len() != 20 || s[4] != '-' || s[7] != '-' || s[10] != 'T' || s[13] != ':' || s[16]
        != ':' || s[19] != 'Z' {
        None
    } else {
        match (field(s, 0, 4), field(s, 5, 2), field(s, 8, 2), field(s, 11, 2), field(s, 14, 2), field(s, 17, 2)) {
            (Some(y), Some(mo), Some(d), Some(h), Some(mi), Some(se)) => {
                let secs = hinnant_days(y, (mo as u32) as int, (d as u32) as int) * 86400 + h * 3600 + mi
                    * 60 + se;
                if 0 <= secs <= u64::MAX {
                    Some(secs)
                } else {
                    None
                }
            },
            _ => None,
        }
    }
}

fn field_exec(v: &Vec<char>, from: usize, len: usize) -> (r: Option<i64>)
    requires
        from + len <= v.len(),
    ensures
        r matches Some(x) ==> field(v@, from as int, len as int) == Some(x as int),
        r is None ==> field(v@, from as int, len as int) is None,
{
    parse_i64(&slice_chars(v, from, from + len))
}

/// Parses the fixed-width "YYYY-MM-DDTHH:MM:SSZ" that `now` emits back to
/// seconds since the epoch; `None` for any other shape.
pub fn epoch_from_rfc3339(s: &str) -> (r: Option<u64>)
    ensures
        r matches Some(x) ==> rfc3339_epoch(s@) == Some(x as int),
        r is None ==> rfc3339_epoch(s@) is None,
{
    let v = to_chars(s);
    if v.len() != 20 || v[4] != '-' || v[7] != '-' || v[10] != 'T' || v[13] != ':' || v[16] != ':'
        || v[19] != 'Z' {
        return None;
    }
    let y = match field_exec(&v, 0, 4) {
        Some(x) => x,
        None => return None,
    };
    let mo = match field_exec(&v, 5, 2) {
        Some(x) => x,
        None => return None,
    };
    let d = match field_exec(&v, 8, 2) {
        Some(x) => x,
        None => return None,
    };
    let h = match field_exec(&v, 11, 2) {
        Some(x) => x,
        None => return None,
    };
    let mi = match field_exec(&v, 14, 2) {
        Some(x) => x,
        None => return None,
    };
    let se = match field_exec(&v, 17, 2) {
        Some(x) => x,
        None => return None,
    };
    proof {
        lemma_short_field(v@, 0, 4);
        lemma_short_field(v@, 5, 2);
        lemma_short_field(v@, 8, 2);
        lemma_short_field(v@, 11, 2);
        lemma_short_field(v@, 14, 2);
        lemma_short_field(v@, 17, 2);
    }
    let days = days_from_civil(y, mo as u32, d as u32);
    assert(-200_000_000_000 <= days <= 200_000_000_000) by {
        assert(hinnant_days(y as int, (mo as u32) as int, (d as u32) as int) == days);
    }
    let secs: i64 = days * 86400 + h * 3600 + mi * 60 + se;
    if secs < 0 {
        None
    } else {
        Some(secs as u64)
    }
}

/// A parsed field of at most four characters lies between -999 and 9999.
proof fn lemma_short_field(s: Seq<char>, from: int, len: int)
    requires
        0 <= from,
        from + len <= s.len(),
        1 <= len <= 4,
    ensures
        field(s, from, len) matches Some(x) ==> -999 <= x <= 9999,
{
    let t = s.subrange(from, from + len);
    if t.len() > 0 && crate::num::all_digits(t) {
        crate::num::lemma_dec_value_bound(t);
        reveal_with_fuel(crate::num::pow10, 5);
    }
    if t.len() > 1 && crate::num::all_digits(t.drop_first()) {
        crate::num::lemma_dec_value_bound(t.drop_first());
        reveal_with_fuel(crate::num::pow10, 5);
    }
}

/// Coarse "time ago" for a stamp: "just now", "5m", "3h", "2d", "3w"; empty
/// when the stamp does not parse.
pub open spec fn humanized(stamp: Seq<char>, now: int) -> Seq<char> {
    match rfc3339_epoch(stamp) {
        None => Seq::empty(),
        Some(then) => {
            let d = if now >= then { now - then } else { 0 };
            if d < 60 {
                seq!['j', 'u', 's', 't', ' ', 'n', 'o', 'w']
            } else if d < 3600 {
                dec_digits((d / 60) as nat).push('m')
            } else if d < 86400 {
                dec_digits((d / 3600) as nat).push('h')
            } else if d < 604800 {
                dec_digits((d / 86400) as nat).push('d')
            } else {
                dec_digits((d / 604800) as nat).push('w')
            }
        },
    }
}

/// The timestamp parser under the name the list views use.
pub fn rfc3339_to_secs(s: &str) -> (r: Option<u64>)
    ensures
        r matches Some(x) ==> rfc3339_epoch(s@) == Some(x as int),
        r is None ==> rfc3339_epoch(s@) is None,
{
    epoch_from_rfc3339(s)
}


pub fn humanize_since(updated: &str, now_secs: u64) -> (r: String)
    ensures
        r@ == humanized(updated@, now_secs as int),
{
    let then = match epoch_from_rfc3339(updated) {
        None => return String::new(),
        Some(t) => t,
    };
    let d = if now_secs >= then { now_secs - then } else { 0 };
    let mut v: Vec<char>;
    if d < 60 {
        v = to_chars("just now");
        proof {
            reveal_strlit("just now");
        }
    } else if d < 3600 {
        v = fmt_u64(d / 60);
        v.push('m');
    } else if d < 86400 {
        v = fmt_u64(d / 3600);
        v.push('h');
    } else if d < 604800 {
        v = fmt_u64(d / 86400);
        v.push('d');
    } else {
        v = fmt_u64(d / 604800);
        v.push('w');
    }
    let r = from_chars(&v);
    assert(r@ =~= humanized(updated@, now_secs as int));
    r
}

// ------------------------------------------------------------ timestamps
/// The fixed-width stamp layout of a date and a time of day.
pub open spec fn stamp_layout(y: int, m: int, d: int, h: int, mi: int, sc: int) -> Seq<char> {
    dec_padded(y as nat, 4) + seq!['-'] + dec_padded(m as nat, 2) + seq!['-'] + dec_padded(
        d as nat,
        2,
    ) + seq!['T'] + dec_padded(h as nat, 2) + seq![':'] + dec_padded(mi as nat, 2) + seq![':']
        + dec_padded(sc as nat, 2) + seq!['Z']
}

/// Each field of a laid-out stamp reads back as the number written there.
proof fn lemma_stamp_fields(y: int, m: int, d: int, h: int, mi: int, sc: int)
    requires
        0 <= y < 10000,
        1 <= m <= 12,
        1 <= d <= 31,
        0 <= h < 24,
        0 <= mi < 60,
        0 <= sc < 60,
    ensures
        ({
            let t = stamp_layout(y, m, d, h, mi, sc);
            &&& t.len() == 20
            &&& t[4] == '-' && t[7] == '-' && t[10] == 'T' && t[13] == ':' && t[16] == ':'
                && t[19] == 'Z'
            &&& field(t, 0, 4) == Some(y)
            &&& field(t, 5, 2) == Some(m)
            &&& field(t, 8, 2) == Some(d)
            &&& field(t, 11, 2) == Some(h)
            &&& field(t, 14, 2) == Some(mi)
            &&& field(t, 17, 2) == Some(sc)
        }),
{
    reveal_with_fuel(pow10, 5);
    lemma_padded_parse(y as nat, 4);
    lemma_padded_parse(m as nat, 2);
    lemma_padded_parse(d as nat, 2);
    lemma_padded_parse(h as nat, 2);
    lemma_padded_parse(mi as nat, 2);
    lemma_padded_parse(sc as nat, 2);
    let ys = dec_padded(y as nat, 4);
    let ms = dec_padded(m as nat, 2);
    let ds = dec_padded(d as nat, 2);
    let hs = dec_padded(h as nat, 2);
    let mis = dec_padded(mi as nat, 2);
    let ss = dec_padded(sc as nat, 2);
    let t = stamp_layout(y, m, d, h, mi, sc);
    assert(t.len() == 20);
    assert(t.subrange(0, 4) =~= ys);
    assert(t.subrange(5, 7) =~= ms);
    assert(t.subrange(8, 10) =~= ds);
    assert(t.subrange(11, 13) =~= hs);
    assert(t.subrange(14, 16) =~= mis);
    assert(t.subrange(17, 19) =~= ss);
}

/// The first day of the year 10000.
proof fn lemma_days_to_10000()
    ensures
        days_before_year(10000) == 2932897,
{
    assert(leaps_before(10000) == 2424);
    assert(leaps_before(1970) == 477);
}

/// The date of a day number before the year 10000 has a four-digit year.
proof fn lemma_civil_four_digits(z: int)
    requires
        0 <= z < 2932897,
    ensures
        valid_date(civil_of(z).0, civil_of(z).1, civil_of(z).2),
        civil_of(z).0 < 10000,
        hinnant_days(civil_of(z).0, civil_of(z).1, civil_of(z).2) == z,
{
    lemma_civil_of(z);
    let (y, m, d) = civil_of(z);
    lemma_date_in_year(y, m, d);
    if y >= 10000 {
        lemma_years_monotone(10000, y);
        lemma_days_to_10000();
    }
    lemma_hinnant_civil(y, m, d);
}

/// A second of the day splits into hours, minutes and seconds.
proof fn lemma_day_clock(rem: int)
    requires
        0 <= rem < 86400,
    ensures
        0 <= rem / 3600 < 24,
        0 <= (rem % 3600) / 60 < 60,
        0 <= rem % 60 < 60,
        (rem / 3600) * 3600 + ((rem % 3600) / 60) * 60 + rem % 60 == rem,
{
}

/// Reading back a stamp the clock wrote gives the second it was written for,
/// for every second before the year 10000 (from then on the year takes five
/// digits and the fixed-width reader turns the stamp down).
#[verifier::spinoff_prover]
pub proof fn law_stamp_roundtrip(secs: int)
    requires
        0 <= secs < 253402300800,
    ensures
        rfc3339_epoch(rfc3339_text(secs)) == Some(secs),
{
    let z = secs / 86400;
    let rem = secs % 86400;
    assert(z * 86400 + rem == secs && 0 <= z < 2932897 && 0 <= rem < 86400);
    lemma_civil_four_digits(z);
    let (y, m, d) = civil_of(z);
    lemma_day_clock(rem);
    let h = rem / 3600;
    let mi = (rem % 3600) / 60;
    let sc = rem % 60;
    lemma_stamp_fields(y, m, d, h, mi, sc);
    assert(rfc3339_text(secs) == stamp_layout(y, m, d, h, mi, sc));
    assert((m as u32) as int == m);
    assert((d as u32) as int == d);
}

} // verus!
