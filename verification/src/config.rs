//! Non-secret account metadata (the config file's model), and the UTC timestamps recorded in it.
//! The API key itself never lands here: that goes to [`crate::secrets`].

use vstd::prelude::*;

use indexmap::IndexMap;

use crate::error::{opt_text, Error, ErrorCode};
use crate::text::{
    cat, chars_of, lex_less, lex_lt, lemma_lex_total, lemma_lex_transitive,
    ascii_fold, lowercase, to_lowercase, decimal, eq_ascii_nocase, eq_ignore_ascii_case, padded_decimal, push_char, push_str,
    signed_decimal, signed_padded_decimal, zero_pad,
};

verus! {

// ---------------------------------------------------------------------------------------------
// The proleptic Gregorian calendar
// ---------------------------------------------------------------------------------------------

/// Gregorian leap years: divisible by 4, and not by 100 unless by 400.
pub open spec fn is_leap(y: int) -> bool {
    y % 4 == 0 && (y % 100 != 0 || y % 400 == 0)
}

/// The number of days of month `m` (1-12) of year `y`.
pub open spec fn days_in_month(y: int, m: int) -> int {
    if m == 2 {
        if is_leap(y) {
            29
        } else {
            28
        }
    } else if m == 4 || m == 6 || m == 9 || m == 11 {
        30
    } else {
        31
    }
}

/// `y-m-d` names a day of the calendar.
pub open spec fn valid_date(y: int, m: int, d: int) -> bool {
    1 <= m <= 12 && 1 <= d <= days_in_month(y, m)
}

/// The number of leap years in `1..=y` (for `y < 0`, minus those in `y+1..=0`).
pub open spec fn leaps_through(y: int) -> int {
    y / 4 - y / 100 + y / 400
}

/// Days from 1970-01-01 to the first of January of year `y`.
pub open spec fn days_before_year(y: int) -> int {
    365 * (y - 1970) + leaps_through(y - 1) - leaps_through(1969)
}

/// Days from the first of January to the first of month `m` in year `y`.
pub open spec fn days_before_month(y: int, m: int) -> int {
    let common: int = if m == 1 {
        0
    } else if m == 2 {
        31
    } else if m == 3 {
        59
    } else if m == 4 {
        90
    } else if m == 5 {
        120
    } else if m == 6 {
        151
    } else if m == 7 {
        181
    } else if m == 8 {
        212
    } else if m == 9 {
        243
    } else if m == 10 {
        273
    } else if m == 11 {
        304
    } else {
        334
    };
    common + if m > 2 && is_leap(y) {
        1int
    } else {
        0int
    }
}

/// The day number of `y-m-d`, counted from 1970-01-01 (day 0).
pub open spec fn days_from_civil(y: int, m: int, d: int) -> int {
    days_before_year(y) + days_before_month(y, m) + d - 1
}

/// The text `yyyy-MM-ddTHH:mm:ssZ` of a date and time of day.
pub open spec fn utc_text(y: int, m: int, d: int, hh: int, mm: int, ss: int) -> Seq<char> {
    signed_decimal(y, 4) + seq!['-'] + zero_pad(decimal(m as nat), 2) + seq!['-'] + zero_pad(
        decimal(d as nat),
        2,
    ) + seq!['T'] + zero_pad(decimal(hh as nat), 2) + seq![':'] + zero_pad(decimal(mm as nat), 2)
        + seq![':'] + zero_pad(decimal(ss as nat), 2) + seq!['Z']
}

/// `text` is the UTC rendering of the instant `secs` seconds after 1970-01-01T00:00:00Z.
pub open spec fn is_utc_text(secs: int, text: Seq<char>) -> bool {
    let rem = secs % 86400;
    exists|y: int, m: int, d: int|
        #![trigger days_from_civil(y, m, d)]
        valid_date(y, m, d) && days_from_civil(y, m, d) == secs / 86400 && text == utc_text(
            y,
            m,
            d,
            rem / 3600,
            rem % 3600 / 60,
            rem % 60,
        )
}

/// The length of year `y` in days.
pub open spec fn year_len(y: int) -> int {
    if is_leap(y) {
        366
    } else {
        365
    }
}

proof fn lemma_year_step(y: int)
    ensures
        days_before_year(y + 1) == days_before_year(y) + year_len(y),
{
    lemma_leaps_step(y);
}

proof fn lemma_years_increase(a: int, b: int)
    requires
        a < b,
    ensures
        days_before_year(a) + year_len(a) <= days_before_year(b),
    decreases b - a,
{
    lemma_year_step(a);
    if a + 1 < b {
        lemma_years_increase(a + 1, b);
        lemma_year_step(a + 1);
    }
}

proof fn lemma_months_increase(y: int, a: int, b: int)
    requires
        1 <= a < b <= 12,
    ensures
        days_before_month(y, a) + days_in_month(y, a) <= days_before_month(y, b),
    decreases b - a,
{
    if a + 1 < b {
        lemma_months_increase(y, a + 1, b);
    }
}

proof fn lemma_day_of_year(y: int, m: int, d: int)
    requires
        valid_date(y, m, d),
    ensures
        0 <= days_before_month(y, m) + d - 1 < year_len(y),
{
    if m < 12 {
        lemma_months_increase(y, m, 12);
    }
}

/// Distinct days of the calendar have distinct day numbers.
proof fn lemma_civil_injective(y1: int, m1: int, d1: int, y2: int, m2: int, d2: int)
    requires
        valid_date(y1, m1, d1),
        valid_date(y2, m2, d2),
        days_from_civil(y1, m1, d1) == days_from_civil(y2, m2, d2),
    ensures
        y1 == y2 && m1 == m2 && d1 == d2,
{
    lemma_day_of_year(y1, m1, d1);
    lemma_day_of_year(y2, m2, d2);
    if y1 < y2 {
        lemma_years_increase(y1, y2);
    } else if y2 < y1 {
        lemma_years_increase(y2, y1);
    } else if m1 < m2 {
        lemma_months_increase(y1, m1, m2);
    } else if m2 < m1 {
        lemma_months_increase(y1, m2, m1);
    }
}

/// An instant has one UTC rendering: two texts that both render `secs` are the same text.
pub proof fn lemma_utc_text_unique(secs: int, t1: Seq<char>, t2: Seq<char>)
    requires
        is_utc_text(secs, t1),
        is_utc_text(secs, t2),
    ensures
        t1 == t2,
{
    let (y1, m1, d1) = choose|y: int, m: int, d: int|
        #![trigger days_from_civil(y, m, d)]
        valid_date(y, m, d) && days_from_civil(y, m, d) == secs / 86400 && t1 == utc_text(
            y,
            m,
            d,
            secs % 86400 / 3600,
            secs % 86400 % 3600 / 60,
            secs % 86400 % 60,
        );
    let (y2, m2, d2) = choose|y: int, m: int, d: int|
        #![trigger days_from_civil(y, m, d)]
        valid_date(y, m, d) && days_from_civil(y, m, d) == secs / 86400 && t2 == utc_text(
            y,
            m,
            d,
            secs % 86400 / 3600,
            secs % 86400 % 3600 / 60,
            secs % 86400 % 60,
        );
    lemma_civil_injective(y1, m1, d1, y2, m2, d2);
}

/// Days before March-based year `yoe` of a 400-year era that starts on a first of March.
pub open spec fn era_days_before(yoe: int) -> int {
    365 * yoe + yoe / 4 - yoe / 100
}

/// The year of era `yoe` holds day `doe` of its era, which is day `doe - era_days_before(yoe)`
/// of that year, and that year is 365 days long, or 366 when the February it ends in is a leap.
proof fn lemma_year_of_era(doe: int)
    requires
        0 <= doe <= 146096,
    ensures
        ({
            let yoe = (doe - doe / 1460 + doe / 36524 - doe / 146096) / 365;
            &&& 0 <= yoe <= 399
            &&& era_days_before(yoe) <= doe
            &&& doe - era_days_before(yoe) <= 364 || (doe - era_days_before(yoe) == 365
                && is_leap(yoe + 1))
        }),
{
    let c: int = if doe / 36524 > 3 { 3 } else { doe / 36524 };
    let n1 = doe - 36524 * c;
    let q = n1 / 1461;
    let n2 = n1 - 1461 * q;
    let r: int = if n2 / 365 > 3 { 3 } else { n2 / 365 };
    let k = n2 - 365 * r;
    assert(0 <= n1 <= 36524);
    assert(0 <= q <= 24);
    assert(0 <= n2 <= 1460);
    assert(0 <= r <= 3);
    assert(0 <= k <= 365);
    assert(k == 365 ==> r == 3 && n2 == 1460);
    assert(q == 24 && c < 3 ==> n1 <= 36523);
    let y = 100 * c + 4 * q + r;
    assert(era_days_before(y) == 36524 * c + 1461 * q + 365 * r);
    assert(doe == era_days_before(y) + k);
    let t = 24 * c + q + 365 * r + k;
    assert(doe == 1460 * (25 * c + q) + t);
    assert(doe / 1460 == 25 * c + q + t / 1460);
    assert(t / 1460 == 1 <==> r == 3 && k + 24 * c + q >= 365);
    if doe == 146096 {
        assert(c == 3 && q == 24 && r == 3 && k == 365);
        assert(doe / 36524 == 4);
        assert(doe / 146096 == 1);
    } else {
        assert(doe / 36524 == c);
        assert(doe / 146096 == 0);
    }
    let e = doe - doe / 1460 + doe / 36524 - doe / 146096;
    assert(e == 365 * y + (k - t / 1460 + (doe / 36524 - c) - doe / 146096));
    assert(0 <= k - t / 1460 + (doe / 36524 - c) - doe / 146096 <= 364);
    assert(e / 365 == y);
    if k == 365 {
        assert(r == 3);
        assert((y + 1) % 4 == 0);
        if q == 24 {
            assert(c == 3);
            assert(y + 1 == 400);
        } else {
            assert((y + 1) % 100 != 0);
        }
    }
}

/// Leap years repeat every 400 years.
proof fn lemma_leap_period(era: int, yoe: int)
    ensures
        is_leap(400 * era + yoe) == is_leap(yoe),
{
    vstd::arithmetic::div_mod::lemma_mod_multiples_vanish(100 * era, yoe, 4);
    vstd::arithmetic::div_mod::lemma_mod_multiples_vanish(4 * era, yoe, 100);
    vstd::arithmetic::div_mod::lemma_mod_multiples_vanish(era, yoe, 400);
    assert(4 * (100 * era) + yoe == 400 * era + yoe);
    assert(100 * (4 * era) + yoe == 400 * era + yoe);
}

/// Counting leap years: those through `y` are those through `y - 1`, plus `y` itself if leap.
proof fn lemma_leaps_step(y: int)
    ensures
        leaps_through(y) == leaps_through(y - 1) + if is_leap(y) {
            1int
        } else {
            0int
        },
{
    lemma_div_step(y, 4);
    lemma_div_step(y, 100);
    lemma_div_step(y, 400);
    assert(y % 100 == 0 ==> y % 4 == 0) by {
        if y % 100 == 0 {
            assert(y == 100 * (y / 100));
            assert(y == 4 * (25 * (y / 100)));
        }
    }
    assert(y % 400 == 0 ==> y % 100 == 0) by {
        if y % 400 == 0 {
            assert(y == 400 * (y / 400));
            assert(y == 100 * (4 * (y / 400)));
        }
    }
}

proof fn lemma_div_step(y: int, d: int)
    requires
        d > 0,
    ensures
        y / d == (y - 1) / d + if y % d == 0 {
            1int
        } else {
            0int
        },
{
    let q = y / d;
    let r = y % d;
    assert(y == d * q + r && 0 <= r < d) by {
        vstd::arithmetic::div_mod::lemma_fundamental_div_mod(y, d);
    }
    if r == 0 {
        assert(y - 1 == (q - 1) * d + (d - 1)) by (nonlinear_arith)
            requires
                y == d * q + r,
                r == 0,
        ;
        vstd::arithmetic::div_mod::lemma_div_basics(d);
        assert((y - 1) / d == q - 1) by {
            vstd::arithmetic::div_mod::lemma_fundamental_div_mod_converse(y - 1, d, q - 1, d - 1);
        }
    } else {
        assert((y - 1) / d == q) by {
            vstd::arithmetic::div_mod::lemma_fundamental_div_mod_converse(y - 1, d, q, r - 1);
        }
    }
}

/// Day number of the first of March of year `400 * era + yoe`.
proof fn lemma_first_of_march(era: int, yoe: int)
    requires
        0 <= yoe <= 399,
    ensures
        days_before_year(400 * era + yoe) + 59 + if is_leap(400 * era + yoe) {
            1int
        } else {
            0int
        } == 146097 * era + era_days_before(yoe) - 719468,
{
    let y = 400 * era + yoe;
    lemma_leaps_step(y);
    assert(y / 4 == 100 * era + yoe / 4);
    assert(y / 100 == 4 * era + yoe / 100);
    assert(y / 400 == era + yoe / 400);
    assert(yoe / 400 == 0);
    assert(leaps_through(1969) == 477);
}

/// Day `doy` (0 = first of March) of a March-based year falls in month `m`, on day `d`.
proof fn lemma_month_of_year(doy: int, leap: bool)
    requires
        0 <= doy <= 364 || (doy == 365 && leap),
    ensures
        ({
            let mp = (5 * doy + 2) / 153;
            let d = doy - (153 * mp + 2) / 5 + 1;
            &&& 0 <= mp <= 11
            &&& 1 <= d
            &&& d <= if mp == 11 {
                if leap {
                    29int
                } else {
                    28int
                }
            } else if mp == 1 || mp == 3 || mp == 6 || mp == 8 {
                30int
            } else {
                31int
            }
        }),
{
    let mp = (5 * doy + 2) / 153;
    assert(0 <= mp <= 11);
    assert(153 * mp <= 5 * doy + 2 < 153 * mp + 153);
    if mp == 0 {} else if mp == 1 {} else if mp == 2 {} else if mp == 3 {} else if mp == 4 {
    } else if mp == 5 {} else if mp == 6 {} else if mp == 7 {} else if mp == 8 {} else if mp
        == 9 {} else if mp == 10 {} else {}
}

/// Euclidean quotient and remainder of `a` by a positive `b` (floor division).
fn floor_div_mod(a: i64, b: i64) -> (r: (i64, i64))
    requires
        b > 0,
    ensures
        r.0 == a / b,
        r.1 == a % b,
{
    if a >= 0 {
        let q = (a as u64 / b as u64) as i64;
        let m = (a as u64 % b as u64) as i64;
        proof {
            vstd::arithmetic::div_mod::lemma_fundamental_div_mod(a as int, b as int);
        }
        (q, m)
    } else {
        let p: u64 = (-(a + 1)) as u64;
        let pq: u64 = p / (b as u64);
        let pr: u64 = p % (b as u64);
        proof {
            vstd::arithmetic::div_mod::lemma_fundamental_div_mod(p as int, b as int);
            assert(a == b * (-(pq as int) - 1) + (b - 1 - pr)) by (nonlinear_arith)
                requires
                    p == b * pq + pr,
                    p == -(a + 1),
            ;
            vstd::arithmetic::div_mod::lemma_fundamental_div_mod_converse(
                a as int,
                b as int,
                -(pq as int) - 1,
                b - 1 - pr,
            );
        }
        (-(pq as i64) - 1, b - 1 - pr as i64)
    }
}

/// The calendar date of day number `days` (day 0 is 1970-01-01).
pub fn civil_from_days(days: i64) -> (r: (i64, i64, i64))
    requires
        -1_000_000_000_000_000 <= days <= 1_000_000_000_000_000,
    ensures
        valid_date(r.0 as int, r.1 as int, r.2 as int),
        days_from_civil(r.0 as int, r.1 as int, r.2 as int) == days,
{
    let z = days + 719_468;
    let (era, doe) = floor_div_mod(z, 146_097);
    proof {
        lemma_year_of_era(doe as int);
    }
    let yoe = (doe - doe / 1460 + doe / 36_524 - doe / 146_096) / 365;
    let doy = doe - (365 * yoe + yoe / 4 - yoe / 100);
    proof {
        lemma_month_of_year(doy as int, is_leap(yoe + 1));
        lemma_first_of_march(era as int, yoe as int);
        lemma_leap_period(era as int, yoe + 1);
        lemma_leaps_step(400 * era + yoe);
    }
    let mp = (5 * doy + 2) / 153;
    let d = doy - (153 * mp + 2) / 5 + 1;
    let m = if mp < 10 {
        mp + 3
    } else {
        mp - 9
    };
    let y = yoe + era * 400 + if m <= 2 {
        1
    } else {
        0
    };
    proof {
        let big_y = 400 * era + yoe;
        assert(doe == era_days_before(yoe as int) + doy);
        assert(z == 146097 * era + doe);
        if m > 2 {
            assert(y == big_y);
            assert(days_before_month(y as int, m as int) == 59 + (if is_leap(y as int) {
                1int
            } else {
                0int
            }) + (153 * mp + 2) / 5);
        } else {
            assert(y == big_y + 1);
            assert(days_before_year(y as int) == days_before_year(big_y) + 365 + if is_leap(
                big_y,
            ) {
                1int
            } else {
                0int
            });
            assert((153 * mp + 2) / 5 == 306 + days_before_month(y as int, m as int));
        }
    }
    (y, m, d)
}

/// `yyyy-MM-ddTHH:mm:ssZ`, UTC, for `secs` seconds after the epoch.
pub fn format_utc(secs: i64) -> (r: String)
    ensures
        is_utc_text(secs as int, r@),
{
    let (days, rem) = floor_div_mod(secs, 86_400);
    let (y, m, d) = civil_from_days(days);
    let hh = rem / 3600;
    let mm = rem % 3600 / 60;
    let ss = rem % 60;
    let mut r = signed_padded_decimal(y, 4);
    push_char(&mut r, '-');
    let t = padded_decimal(m as u64, 2);
    push_str(&mut r, t.as_str());
    push_char(&mut r, '-');
    let t = padded_decimal(d as u64, 2);
    push_str(&mut r, t.as_str());
    push_char(&mut r, 'T');
    let t = padded_decimal(hh as u64, 2);
    push_str(&mut r, t.as_str());
    push_char(&mut r, ':');
    let t = padded_decimal(mm as u64, 2);
    push_str(&mut r, t.as_str());
    push_char(&mut r, ':');
    let t = padded_decimal(ss as u64, 2);
    push_str(&mut r, t.as_str());
    push_char(&mut r, 'Z');
    proof {
        let text = utc_text(y as int, m as int, d as int, hh as int, mm as int, ss as int);
        assert(r@ =~= text);
        assert(days_from_civil(y as int, m as int, d as int) == secs / 86400);
    }
    r
}

#[verifier::external_type_specification]
#[verifier::external_body]
pub struct ExSystemTime(std::time::SystemTime);

/// `SystemTime::now` from std: the system clock's current reading.
#[verifier::external_body]
fn system_now() -> std::time::SystemTime {
    std::time::SystemTime::now()
}

/// `SystemTime::duration_since` from std, measured from the Unix epoch; `None` for a time
/// before the epoch.
#[verifier::external_body]
fn since_epoch(t: &std::time::SystemTime) -> Option<std::time::Duration> {
    t.duration_since(std::time::UNIX_EPOCH).ok()
}

/// `Duration::as_secs` from std: the whole seconds of the duration.
#[verifier::external_body]
fn whole_secs(d: &std::time::Duration) -> u64 {
    d.as_secs()
}

/// The seconds since the epoch that a clock reading stands for: a reading before the epoch
/// (`None`) is the epoch itself, and a count of seconds past `i64::MAX` wraps around as a cast to
/// `i64` does.
pub open spec fn secs_of_reading(reading: Option<u64>) -> int {
    match reading {
        Some(s) => if s <= 9223372036854775807u64 {
            s as int
        } else {
            s - 18446744073709551616int
        },
        None => 0,
    }
}

/// The UTC text, `yyyy-MM-ddTHH:mm:ssZ`, of a clock reading (seconds since the epoch, `None`
/// for a clock before the epoch).
pub fn utc_of_reading(reading: Option<u64>) -> (r: String)
    ensures
        is_utc_text(secs_of_reading(reading), r@),
{
    let secs: i64 = match reading {
        Some(s) => if s <= 9223372036854775807u64 {
            s as i64
        } else {
            let t: u64 = s - 9223372036854775808u64;
            (t as i64) - 9223372036854775807i64 - 1
        },
        None => 0,
    };
    format_utc(secs)
}

/// The current time as `yyyy-MM-ddTHH:mm:ssZ`, UTC, from the system clock; a clock before the
/// epoch reads as the epoch. Which reading the clock gives is the clock's: the text is that of
/// some reading, by `utc_of_reading`.
pub fn now_utc() -> (r: String)
    ensures
        exists|x: Option<u64>| #[trigger] is_utc_text(secs_of_reading(x), r@),
{
    let now = system_now();
    let reading = match since_epoch(&now) {
        Some(d) => Some(whole_secs(&d)),
        None => None,
    };
    let r = utc_of_reading(reading);
    assert(is_utc_text(secs_of_reading(reading), r@));
    r
}

// ---------------------------------------------------------------------------------------------
// Accounts
// ---------------------------------------------------------------------------------------------

/// What is recorded of an account besides its key.
#[derive(Clone, Debug)]
pub struct AccountConfig {
    /// Whatever `me` called this token when it was added - an email, a username, an id.
    pub identity: String,
    /// The subscription or plan tier observed at that time.
    pub plan: String,
    pub added_at: String,
}

/// The recorded fields of an account as text.
pub struct AccountView {
    pub identity: Seq<char>,
    pub plan: Seq<char>,
    pub added_at: Seq<char>,
}

impl View for AccountConfig {
    type V = AccountView;

    open spec fn view(&self) -> AccountView {
        AccountView { identity: self.identity@, plan: self.plan@, added_at: self.added_at@ }
    }
}

impl AccountConfig {
    /// An account with nothing recorded.
    pub fn empty() -> (r: AccountConfig)
        ensures
            r.identity@.len() == 0,
            r.plan@.len() == 0,
            r.added_at@.len() == 0,
    {
        AccountConfig { identity: String::new(), plan: String::new(), added_at: String::new() }
    }

    /// A copy of the record.
    pub fn duplicate(&self) -> (r: AccountConfig)
        ensures
            r@ == self@,
    {
        AccountConfig {
            identity: self.identity.clone(),
            plan: self.plan.clone(),
            added_at: self.added_at.clone(),
        }
    }
}

#[verifier::external_type_specification]
#[verifier::external_body]
#[verifier::reject_recursive_types(K)]
#[verifier::reject_recursive_types(V)]
#[verifier::reject_recursive_types(S)]
pub struct ExIndexMap<K, V, S>(IndexMap<K, V, S>);

/// The entries of an account map, in their order: each name with its record.
pub uninterp spec fn account_entries(m: IndexMap<String, AccountConfig>) -> Seq<(Seq<char>, AccountView)>;

/// The entries as a sequence of `(name, record)` pairs.
pub open spec fn entries_view(v: Seq<(String, AccountConfig)>) -> Seq<(Seq<char>, AccountView)> {
    v.map_values(|e: (String, AccountConfig)| (e.0@, e.1@))
}

/// No name occurs twice.
pub open spec fn names_distinct(es: Seq<(Seq<char>, AccountView)>) -> bool {
    forall|i: int, j: int| 0 <= i < es.len() && 0 <= j < es.len() && i != j ==> es[i].0 != es[j].0
}

/// `IndexMap::new` from indexmap: a map with no entries.
#[verifier::external_body]
fn new_account_map() -> (r: IndexMap<String, AccountConfig>)
    ensures
        account_entries(r) == Seq::<(Seq<char>, AccountView)>::empty(),
{
    IndexMap::new()
}

/// `IndexMap::iter` from indexmap, each entry copied out: the entries in their order. An
/// `IndexMap` never holds two equal keys.
#[verifier::external_body]
fn account_map_entries(m: &IndexMap<String, AccountConfig>) -> (r: Vec<(String, AccountConfig)>)
    ensures
        entries_view(r@) == account_entries(*m),
        names_distinct(entries_view(r@)),
{
    m.iter().map(|(k, v)| (k.clone(), v.clone())).collect()
}

/// `IndexMap::insert` from indexmap: an existing equal key keeps its place and takes the new
/// record; otherwise the entry is appended last.
#[verifier::external_body]
fn account_map_insert(m: &mut IndexMap<String, AccountConfig>, name: String, account: AccountConfig)
    ensures
        forall|i: int|
            0 <= i < account_entries(*old(m)).len() && account_entries(*old(m))[i].0 == name@
                ==> account_entries(*final(m)) == account_entries(*old(m)).update(
                i,
                (name@, account@),
            ),
        (forall|i: int|
            0 <= i < account_entries(*old(m)).len() ==> account_entries(*old(m))[i].0 != name@)
            ==> account_entries(*final(m)) == account_entries(*old(m)).push((name@, account@)),
{
    m.insert(name, account);
}

/// `IndexMap::shift_remove` from indexmap: the entry with an equal key is removed and the
/// entries after it move up one place; without such an entry nothing changes.
#[verifier::external_body]
fn account_map_shift_remove(m: &mut IndexMap<String, AccountConfig>, name: &String)
    ensures
        forall|i: int|
            0 <= i < account_entries(*old(m)).len() && account_entries(*old(m))[i].0 == name@
                ==> account_entries(*final(m)) == account_entries(*old(m)).remove(i),
        (forall|i: int|
            0 <= i < account_entries(*old(m)).len() ==> account_entries(*old(m))[i].0 != name@)
            ==> account_entries(*final(m)) == account_entries(*old(m)),
{
    m.shift_remove(name);
}

/// The configuration file: a format version and the accounts, in the order they were added.
#[derive(Debug)]
pub struct Config {
    pub version: u32,
    pub accounts: IndexMap<String, AccountConfig>,
}

/// Entry `i` is the first whose name equals `name` up to ASCII case.
pub open spec fn is_first_match(es: Seq<(Seq<char>, AccountView)>, name: Seq<char>, i: int) -> bool {
    &&& 0 <= i < es.len()
    &&& eq_ascii_nocase(es[i].0, name)
    &&& forall|j: int| 0 <= j < i ==> !eq_ascii_nocase(#[trigger] es[j].0, name)
}

/// No entry's name equals `name` up to ASCII case.
pub open spec fn no_match(es: Seq<(Seq<char>, AccountView)>, name: Seq<char>) -> bool {
    forall|j: int| 0 <= j < es.len() ==> !eq_ascii_nocase(#[trigger] es[j].0, name)
}

/// `r` is what a case-insensitive lookup of `name` gives among the entries `es`.
pub open spec fn found(es: Seq<(Seq<char>, AccountView)>, name: Seq<char>, r: Option<(String, AccountConfig)>) -> bool {
    match r {
        Some(e) => exists|i: int|
            #[trigger] is_first_match(es, name, i) && e.0@ == es[i].0 && e.1@ == es[i].1,
        None => no_match(es, name),
    }
}

/// Looking an account up is blind to ASCII case in the requested name: names equal up to ASCII
/// case find the same entry, or both find none.
pub proof fn lemma_find_ignores_case(es: Seq<(Seq<char>, AccountView)>, a: Seq<char>, b: Seq<char>, i: int)
    requires
        eq_ascii_nocase(a, b),
    ensures
        is_first_match(es, a, i) == is_first_match(es, b, i),
        no_match(es, a) == no_match(es, b),
{
    assert forall|n: Seq<char>| #[trigger] eq_ascii_nocase(n, a) == eq_ascii_nocase(n, b) by {
        if eq_ascii_nocase(n, a) {
            assert forall|k: int| 0 <= k < n.len() implies #[trigger] ascii_fold(n[k]) == ascii_fold(b[k]) by {
                assert(ascii_fold(a[k]) == ascii_fold(b[k]));
            }
        }
        if eq_ascii_nocase(n, b) {
            assert forall|k: int| 0 <= k < n.len() implies #[trigger] ascii_fold(n[k]) == ascii_fold(a[k]) by {
                assert(ascii_fold(a[k]) == ascii_fold(b[k]));
            }
        }
    }
    if no_match(es, a) != no_match(es, b) {
        if no_match(es, a) {
            let j = choose|j: int| 0 <= j < es.len() && eq_ascii_nocase(#[trigger] es[j].0, b);
            assert(eq_ascii_nocase(es[j].0, a));
        } else {
            let j = choose|j: int| 0 <= j < es.len() && eq_ascii_nocase(#[trigger] es[j].0, a);
            assert(eq_ascii_nocase(es[j].0, b));
        }
    }
}

impl Default for Config {
    fn default() -> (r: Config)
        ensures
            r.version == 1,
            account_entries(r.accounts).len() == 0,
    {
        Config { version: 1, accounts: new_account_map() }
    }
}

impl Config {
    /// The configuration of a fresh installation: version 1, no accounts.
    pub fn new() -> (r: Config)
        ensures
            r.version == 1,
            account_entries(r.accounts).len() == 0,
    {
        Config { version: 1, accounts: new_account_map() }
    }

    /// The accounts in their stored order.
    pub fn entries(&self) -> (r: Vec<(String, AccountConfig)>)
        ensures
            entries_view(r@) == account_entries(self.accounts),
            names_distinct(entries_view(r@)),
    {
        account_map_entries(&self.accounts)
    }

    /// Account lookup is case-insensitive (ASCII); returns the name as it is stored.
    pub fn find(&self, name: &str) -> (r: Option<(String, AccountConfig)>)
        ensures
            found(account_entries(self.accounts), name@, r),
    {
        let es = account_map_entries(&self.accounts);
        let ghost v = entries_view(es@);
        let mut i: usize = 0;
        while i < es.len()
            invariant
                v == entries_view(es@),
                v == account_entries(self.accounts),
                i <= es@.len(),
                forall|j: int| 0 <= j < i ==> !eq_ascii_nocase(#[trigger] v[j].0, name@),
            decreases es.len() - i,
        {
            assert(v[i as int] == (es@[i as int].0@, es@[i as int].1@));
            if eq_ignore_ascii_case(es[i].0.as_str(), name) {
                let e = (es[i].0.clone(), es[i].1.duplicate());
                assert(is_first_match(v, name@, i as int));
                return Some(e);
            }
            i = i + 1;
        }
        None
    }

    /// Records `account` under `name`: an existing entry of that exact name keeps its place
    /// and takes the new record; a new name is appended.
    pub fn insert(&mut self, name: String, account: AccountConfig)
        ensures
            final(self).version == old(self).version,
            forall|i: int|
                0 <= i < account_entries(old(self).accounts).len() && account_entries(old(self).accounts)[i].0 == name@
                    ==> account_entries(final(self).accounts) == account_entries(old(self).accounts).update(
                    i,
                    (name@, account@),
                ),
            (forall|i: int|
                0 <= i < account_entries(old(self).accounts).len() ==> account_entries(old(self).accounts)[i].0 != name@)
                ==> account_entries(final(self).accounts) == account_entries(old(self).accounts).push((name@, account@)),
    {
        account_map_insert(&mut self.accounts, name, account);
    }

    /// Removes the entry of exactly `name`, keeping the order of the others.
    pub fn remove(&mut self, name: &String)
        ensures
            final(self).version == old(self).version,
            forall|i: int|
                0 <= i < account_entries(old(self).accounts).len() && account_entries(old(self).accounts)[i].0 == name@
                    ==> account_entries(final(self).accounts) == account_entries(old(self).accounts).remove(i),
            (forall|i: int|
                0 <= i < account_entries(old(self).accounts).len() ==> account_entries(old(self).accounts)[i].0 != name@)
                ==> account_entries(final(self).accounts) == account_entries(old(self).accounts),
    {
        account_map_shift_remove(&mut self.accounts, name);
    }
}

// ---------------------------------------------------------------------------------------------
// Listing order
// ---------------------------------------------------------------------------------------------

/// `p` lists each index of `0..n` exactly once.
pub open spec fn is_permutation(p: Seq<int>, n: int) -> bool {
    &&& p.len() == n
    &&& forall|i: int| 0 <= i < p.len() ==> 0 <= #[trigger] p[i] < n
    &&& forall|i: int, j: int| 0 <= i < p.len() && 0 <= j < p.len() && i != j ==> p[i] != p[j]
}

/// Key `ka` from position `ia` goes before key `kb` from position `ib` in a stable sort.
pub open spec fn goes_before(ka: Seq<char>, ia: int, kb: Seq<char>, ib: int) -> bool {
    lex_lt(ka, kb) || (ka == kb && ia < ib)
}

/// `p` orders the positions of `keys` by key, equal keys keeping their relative order.
pub open spec fn stable_order(keys: Seq<Seq<char>>, p: Seq<int>) -> bool {
    &&& is_permutation(p, keys.len() as int)
    &&& forall|a: int, b: int|
        0 <= a < b < p.len() ==> goes_before(keys[p[a]], p[a], keys[p[b]], p[b])
}

/// The positions as integers.
pub open spec fn as_ints(v: Seq<usize>) -> Seq<int> {
    v.map_values(|x: usize| x as int)
}

/// The order in which a stable sort by `keys` lists positions `0..keys.len()`.
pub fn stable_sort_order(keys: &Vec<Vec<char>>) -> (r: Vec<usize>)
    ensures
        stable_order(keys@.map_values(|k: Vec<char>| k@), as_ints(r@)),
{
    let ghost ks = keys@.map_values(|k: Vec<char>| k@);
    let n = keys.len();
    let mut idx: Vec<usize> = Vec::new();
    let mut i: usize = 0;
    while i < n
        invariant
            n == keys@.len(),
            ks == keys@.map_values(|k: Vec<char>| k@),
            i <= n,
            idx@.len() == i,
            forall|a: int| 0 <= a < idx@.len() ==> #[trigger] idx@[a] < i,
            forall|a: int, b: int| 0 <= a < idx@.len() && 0 <= b < idx@.len() && a != b ==> idx@[a] != idx@[b],
            forall|a: int, b: int|
                0 <= a < b < idx@.len() ==> goes_before(ks[idx@[a] as int], idx@[a] as int, ks[idx@[b] as int], idx@[b] as int),
        decreases n - i,
    {
        let mut pos: usize = 0;
        while pos < idx.len() && !lex_less(keys[i].as_slice(), keys[idx[pos]].as_slice())
            invariant
                n == keys@.len(),
                ks == keys@.map_values(|k: Vec<char>| k@),
                i < n,
                pos <= idx@.len(),
                forall|a: int| 0 <= a < idx@.len() ==> #[trigger] idx@[a] < i,
                forall|t: int| 0 <= t < pos ==> !lex_lt(ks[i as int], #[trigger] ks[idx@[t] as int]),
            decreases idx.len() - pos,
        {
            pos = pos + 1;
        }
        let ghost old_idx = idx@;
        idx.insert(pos, i);
        proof {
            let ki = ks[i as int];
            assert forall|a: int, b: int|
                0 <= a < b < idx@.len() implies goes_before(ks[idx@[a] as int], idx@[a] as int, ks[idx@[b] as int], idx@[b] as int) by {
                if b < pos {
                    assert(idx@[a] == old_idx[a] && idx@[b] == old_idx[b]);
                } else if a > pos {
                    assert(idx@[a] == old_idx[a - 1] && idx@[b] == old_idx[b - 1]);
                } else if a < pos && b > pos {
                    assert(idx@[a] == old_idx[a] && idx@[b] == old_idx[b - 1]);
                } else if a == pos {
                    let t = b - 1;
                    let kt = ks[old_idx[t] as int];
                    let kp = ks[old_idx[pos as int] as int];
                    assert(idx@[b] == old_idx[t]);
                    assert(lex_lt(ki, kp));
                    if t > pos {
                        assert(goes_before(kp, old_idx[pos as int] as int, kt, old_idx[t] as int));
                        if lex_lt(kp, kt) {
                            lemma_lex_transitive(ki, kp, kt);
                        }
                    }
                } else {
                    assert(b == pos && a < pos);
                    let ka = ks[old_idx[a] as int];
                    assert(idx@[a] == old_idx[a]);
                    assert(!lex_lt(ki, ka));
                    lemma_lex_total(ki, ka);
                }
            }
            assert forall|a: int, b: int| 0 <= a < idx@.len() && 0 <= b < idx@.len() && a != b implies idx@[a] != idx@[b] by {
                if a != pos && b != pos {
                    let oa = if a < pos { a } else { a - 1 };
                    let ob = if b < pos { b } else { b - 1 };
                    assert(idx@[a] == old_idx[oa] && idx@[b] == old_idx[ob]);
                } else if a == pos {
                    let ob = if b < pos { b } else { b - 1 };
                    assert(idx@[b] == old_idx[ob]);
                } else {
                    let oa = if a < pos { a } else { a - 1 };
                    assert(idx@[a] == old_idx[oa]);
                }
            }
            assert forall|a: int| 0 <= a < idx@.len() implies #[trigger] idx@[a] < i + 1 by {
                if a < pos {
                    assert(idx@[a] == old_idx[a]);
                } else if a > pos {
                    assert(idx@[a] == old_idx[a - 1]);
                }
            }
        }
        i = i + 1;
    }
    proof {
        let p = as_ints(idx@);
        assert forall|a: int| 0 <= a < p.len() implies 0 <= #[trigger] p[a] < n by {
            assert(p[a] == idx@[a] as int);
        }
        assert forall|a: int, b: int| 0 <= a < p.len() && 0 <= b < p.len() && a != b implies p[a] != p[b] by {
            assert(p[a] == idx@[a] as int && p[b] == idx@[b] as int);
        }
        assert forall|a: int, b: int| 0 <= a < b < p.len() implies goes_before(ks[p[a]], p[a], ks[p[b]], p[b]) by {
            assert(p[a] == idx@[a] as int && p[b] == idx@[b] as int);
        }
    }
    idx
}

/// The lowercase names of the entries.
pub open spec fn lowered_names(es: Seq<(Seq<char>, AccountView)>) -> Seq<Seq<char>> {
    es.map_values(|e: (Seq<char>, AccountView)| lowercase(e.0))
}

/// `listing` is the entries `es` stably sorted by lowercase name.
pub open spec fn sorted_listing(es: Seq<(Seq<char>, AccountView)>, listing: Seq<(Seq<char>, AccountView)>) -> bool {
    exists|p: Seq<int>|
        #[trigger] stable_order(lowered_names(es), p) && listing.len() == p.len() && forall|k: int|
            0 <= k < p.len() ==> #[trigger] listing[k] == es[p[k]]
}

impl Config {
    /// The accounts sorted by lowercase name; accounts whose names lowercase alike keep their
    /// stored order.
    pub fn sorted(&self) -> (r: Vec<(String, AccountConfig)>)
        ensures
            sorted_listing(account_entries(self.accounts), entries_view(r@)),
    {
        let es = account_map_entries(&self.accounts);
        let ghost v = entries_view(es@);
        let mut keys: Vec<Vec<char>> = Vec::new();
        let mut i: usize = 0;
        while i < es.len()
            invariant
                v == entries_view(es@),
                i <= es@.len(),
                keys@.len() == i,
                forall|j: int| 0 <= j < i ==> #[trigger] keys@[j]@ == lowercase(v[j].0),
            decreases es.len() - i,
        {
            let lowered = to_lowercase(es[i].0.as_str());
            keys.push(chars_of(lowered.as_str()));
            i = i + 1;
        }
        let order = stable_sort_order(&keys);
        proof {
            assert(keys@.map_values(|k: Vec<char>| k@) =~= lowered_names(v));
        }
        let mut out: Vec<(String, AccountConfig)> = Vec::new();
        let mut k: usize = 0;
        while k < order.len()
            invariant
                v == entries_view(es@),
                v == account_entries(self.accounts),
                stable_order(lowered_names(v), as_ints(order@)),
                k <= order@.len(),
                out@.len() == k,
                forall|j: int| 0 <= j < k ==> #[trigger] entries_view(out@)[j] == v[order@[j] as int],
            decreases order.len() - k,
        {
            let at = order[k];
            assert(as_ints(order@)[k as int] == at as int);
            let e = (es[at].0.clone(), es[at].1.duplicate());
            let ghost ev = (e.0@, e.1@);
            assert(ev == v[at as int]);
            let ghost before = out@;
            out.push(e);
            proof {
                assert forall|j: int| 0 <= j < k + 1 implies #[trigger] entries_view(out@)[j] == v[order@[j] as int] by {
                    if j < k {
                        assert(out@[j] == before[j]);
                        assert(entries_view(before)[j] == v[order@[j] as int]);
                    } else {
                        assert(out@[j] == e);
                    }
                }
            }
            k = k + 1;
        }
        proof {
            let p = as_ints(order@);
            assert forall|j: int| 0 <= j < p.len() implies #[trigger] entries_view(out@)[j] == v[p[j]] by {
                assert(p[j] == order@[j] as int);
            }
        }
        out
    }
}

// ---------------------------------------------------------------------------------------------
// Loading and locking
// ---------------------------------------------------------------------------------------------

/// The error for a configuration file at `path` that does not parse; `detail` is the parser's
/// message.
pub fn invalid_config(path: &str, detail: String) -> (e: Error)
    ensures
        e.code == ErrorCode::Error,
        e.message@ == path@ + " is not valid."@,
        e.detail == Some(detail),
        opt_text(e.remediation) == Some("Fix or delete "@ + path@ + ", then run: twitter accounts add <name>"@),
{
    let mut fix = cat("Fix or delete ", path);
    push_str(&mut fix, ", then run: twitter accounts add <name>");
    Error::other(cat(path, " is not valid.")).detail(detail).fix(fix)
}

/// The error when the lock at `path` stayed taken past the deadline.
pub fn lock_timeout(path: &str) -> (e: Error)
    ensures
        e.code == ErrorCode::Error,
        e.message@ == "Timed out waiting for the lock at "@ + path@
            + ". Another twitter process may be stuck."@,
        e.detail is None,
        e.remediation is None,
{
    let mut m = cat("Timed out waiting for the lock at ", path);
    push_str(&mut m, ". Another twitter process may be stuck.");
    Error::other(m)
}

/// Twice the last wait, at most 400 ms.
pub open spec fn doubled_delay(delay_ms: int) -> int {
    if delay_ms * 2 < 400 {
        delay_ms * 2
    } else {
        400
    }
}

/// How long to wait before the next try at the lock: twice the last wait, at most 400 ms.
pub fn next_delay(delay_ms: u64) -> (r: u64)
    requires
        delay_ms * 2 <= u64::MAX,
    ensures
        r == doubled_delay(delay_ms as int),
{
    let d = delay_ms * 2;
    if d < 400 {
        d
    } else {
        400
    }
}

/// How a try at the config lock went.
#[derive(Debug)]
pub enum LockTry {
    /// The lock is ours.
    Acquired,
    /// Another process holds it.
    Busy,
    /// The try failed (the I/O error's message).
    Failed(String),
}

/// What to do after a try at the lock.
#[derive(Debug)]
pub enum LockNext {
    /// Keep the lock.
    Hold,
    /// Sleep `wait_ms`, then try again, waiting `next_ms` after that.
    Wait { wait_ms: u64, next_ms: u64 },
    /// Stop with this error.
    Fail(Error),
}

/// The decision after a try at the lock at `path`: keep it, wait and retry while the deadline
/// has not passed (the wait doubling up to 400 ms), or give up.
pub fn lock_step(attempt: LockTry, before_deadline: bool, delay_ms: u64, path: &str) -> (r: LockNext)
    requires
        delay_ms * 2 <= u64::MAX,
    ensures
        match attempt {
            LockTry::Acquired => r is Hold,
            LockTry::Busy => if before_deadline {
                r matches LockNext::Wait { wait_ms, next_ms } && wait_ms == delay_ms && next_ms
                    == doubled_delay(delay_ms as int)
            } else {
                r matches LockNext::Fail(e) && e.code == ErrorCode::Error && e.message@
                    == "Timed out waiting for the lock at "@ + path@
                    + ". Another twitter process may be stuck."@ && e.detail is None
                    && e.remediation is None
            },
            LockTry::Failed(m) => r matches LockNext::Fail(e) && e.code == ErrorCode::Error
                && e.message@ == m@ && e.detail is None && e.remediation is None,
        },
{
    match attempt {
        LockTry::Acquired => LockNext::Hold,
        LockTry::Busy => if before_deadline {
            LockNext::Wait { wait_ms: delay_ms, next_ms: next_delay(delay_ms) }
        } else {
            LockNext::Fail(lock_timeout(path))
        },
        LockTry::Failed(m) => LockNext::Fail(Error::other(m)),
    }
}

} // verus!
