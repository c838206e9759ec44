//! Date arithmetic and formatting for the `datetime` tool: the proleptic
//! Gregorian calendar as `chrono` implements it, offset parsing (`+3d`,
//! `-2w`, `+1M`, `next monday`), month arithmetic with day clamping, and the
//! human-readable renderings of dates and day counts.

use vstd::prelude::*;
use chrono::Datelike;
use chrono::TimeZone;
use chrono::Timelike;
use crate::json::{JsonSpec, JsonValue, pairs_to_entries, specs_of};
use crate::tool::{ToolOutput, answers};

verus! {

// ---------------------------------------------------------------------------
// The calendar
// ---------------------------------------------------------------------------

/// The earliest year `chrono::NaiveDate` represents.
pub const MIN_YEAR: i32 = -262143;
/// The latest year `chrono::NaiveDate` represents.
pub const MAX_YEAR: i32 = 262142;

/// Gregorian leap years.
pub open spec fn is_leap_year(y: int) -> bool {
    (y % 4 == 0 && y % 100 != 0) || y % 400 == 0
}

/// The number of days in month `m` (1-based) of year `y`.
pub open spec fn month_length(y: int, m: int) -> int {
    if m == 2 {
        if is_leap_year(y) { 29 } else { 28 }
    } else if m == 4 || m == 6 || m == 9 || m == 11 {
        30
    } else {
        31
    }
}

/// Days in the months of year `y` before month `m`.
pub open spec fn days_before_month(y: int, m: int) -> int {
    let l = if is_leap_year(y) { 1int } else { 0int };
    if m <= 1 { 0 }
    else if m == 2 { 31 }
    else if m == 3 { 59 + l }
    else if m == 4 { 90 + l }
    else if m == 5 { 120 + l }
    else if m == 6 { 151 + l }
    else if m == 7 { 181 + l }
    else if m == 8 { 212 + l }
    else if m == 9 { 243 + l }
    else if m == 10 { 273 + l }
    else if m == 11 { 304 + l }
    else { 334 + l }
}

/// Days in the years before year `y`, counted from 1 January of year 1.
pub open spec fn days_before_year(y: int) -> int {
    let p = y - 1;
    365 * p + p / 4 - p / 100 + p / 400
}

/// A calendar date: year, month (1 to 12) and day of the month.
#[derive(Debug, Clone, Copy, PartialEq, Eq, Structural)]
pub struct CivilDate {
    pub year: i32,
    pub month: u32,
    pub day: u32,
}

impl CivilDate {
    /// Whether this is a date that `chrono::NaiveDate` can hold.
    pub open spec fn valid(self) -> bool {
        &&& MIN_YEAR <= self.year <= MAX_YEAR
        &&& 1 <= self.month <= 12
        &&& 1 <= self.day <= month_length(self.year as int, self.month as int)
    }

    /// The day number of this date: 1 January of year 1 is day 1, and each
    /// following day counts one more (earlier dates count down through 0).
    pub open spec fn day_number(self) -> int {
        days_before_year(self.year as int) + days_before_month(self.year as int, self.month as int)
            + self.day
    }
}

/// Whether `year`, `month`, `day` name a date `chrono` can hold.
pub open spec fn valid_ymd(year: int, month: int, day: int) -> bool {
    &&& MIN_YEAR <= year <= MAX_YEAR
    &&& 1 <= month <= 12
    &&& 1 <= day <= month_length(year, month)
}

/// The day number of the earliest representable date.
pub open spec fn first_day_number() -> int {
    CivilDate { year: MIN_YEAR, month: 1, day: 1 }.day_number()
}

/// The day number of the latest representable date.
pub open spec fn last_day_number() -> int {
    CivilDate { year: MAX_YEAR, month: 12, day: 31 }.day_number()
}

/// The day of the week of day number `n`, counted from Monday as 0 (day 1,
/// 1 January of year 1, was a Monday).
pub open spec fn weekday_index(n: int) -> int {
    (n - 1) % 7
}

/// The date before `d` in the calendar.
pub open spec fn day_before(d: CivilDate) -> (int, int, int) {
    if d.day > 1 {
        (d.year as int, d.month as int, d.day - 1)
    } else if d.month > 1 {
        (d.year as int, d.month - 1, month_length(d.year as int, d.month - 1))
    } else {
        (d.year - 1, 12, 31)
    }
}

// ---------------------------------------------------------------------------
// chrono behind trusted wrappers
// ---------------------------------------------------------------------------

/// `chrono::NaiveDate::from_ymd_opt`: the date with these fields, when it is
/// a valid date within chrono's year range.
#[verifier::external_body]
fn make_date(year: i32, month: u32, day: u32) -> (r: Option<CivilDate>)
    ensures
        r is Some <==> valid_ymd(year as int, month as int, day as int),
        r matches Some(d) ==> d == (CivilDate { year, month, day }),
{
    match chrono::NaiveDate::from_ymd_opt(year, month, day) {
        Some(nd) => Some(CivilDate { year: nd.year(), month: nd.month(), day: nd.day() }),
        None => None,
    }
}

/// `chrono::NaiveDate::pred_opt`: the previous calendar date, absent only
/// before the earliest representable date.
#[verifier::external_body]
fn previous_day(d: CivilDate) -> (r: Option<CivilDate>)
    requires
        d.valid(),
    ensures
        r is Some <==> !(d.year == MIN_YEAR && d.month == 1 && d.day == 1),
        r matches Some(p) ==> (p.year as int, p.month as int, p.day as int) == day_before(d),
{
    let nd = chrono::NaiveDate::from_ymd_opt(d.year, d.month, d.day).expect("valid date");
    match nd.pred_opt() {
        Some(p) => Some(CivilDate { year: p.year(), month: p.month(), day: p.day() }),
        None => None,
    }
}

/// `date + chrono::Duration::days(n)`: the date `n` days later (earlier for
/// negative `n`). chrono panics when the result leaves its range, which
/// `requires` rules out.
#[verifier::external_body]
fn date_plus_days(d: CivilDate, n: i64) -> (r: CivilDate)
    requires
        d.valid(),
        first_day_number() <= d.day_number() + n <= last_day_number(),
    ensures
        r.valid(),
        r.day_number() == d.day_number() + n,
{
    let nd = chrono::NaiveDate::from_ymd_opt(d.year, d.month, d.day).expect("valid date");
    let out = nd + chrono::Duration::days(n);
    CivilDate { year: out.year(), month: out.month(), day: out.day() }
}

/// `date + chrono::Duration::weeks(n)`: the date `7 * n` days later.
/// `Duration::weeks` panics beyond `i64::MAX` milliseconds and the addition
/// beyond chrono's range; `requires` rules both out.
#[verifier::external_body]
fn date_plus_weeks(d: CivilDate, n: i64) -> (r: CivilDate)
    requires
        d.valid(),
        -15250284452 <= n <= 15250284452,
        first_day_number() <= d.day_number() + 7 * n <= last_day_number(),
    ensures
        r.valid(),
        r.day_number() == d.day_number() + 7 * n,
{
    let nd = chrono::NaiveDate::from_ymd_opt(d.year, d.month, d.day).expect("valid date");
    let out = nd + chrono::Duration::weeks(n);
    CivilDate { year: out.year(), month: out.month(), day: out.day() }
}

/// `(to - from).num_days()`: the signed number of days from `from` to `to`.
#[verifier::external_body]
fn days_between(from: CivilDate, to: CivilDate) -> (r: i64)
    requires
        from.valid(),
        to.valid(),
    ensures
        r == to.day_number() - from.day_number(),
{
    let f = chrono::NaiveDate::from_ymd_opt(from.year, from.month, from.day).expect("valid date");
    let t = chrono::NaiveDate::from_ymd_opt(to.year, to.month, to.day).expect("valid date");
    (t - f).num_days()
}

/// `date.weekday().num_days_from_monday()`.
#[verifier::external_body]
fn weekday_number(d: CivilDate) -> (r: u32)
    requires
        d.valid(),
    ensures
        r == weekday_index(d.day_number()),
{
    let nd = chrono::NaiveDate::from_ymd_opt(d.year, d.month, d.day).expect("valid date");
    nd.weekday().num_days_from_monday()
}

} // verus!

verus! {

// ---------------------------------------------------------------------------
// Month arithmetic
// ---------------------------------------------------------------------------

/// The inputs on which `days_in_month` is defined: the first day of the
/// following month exists and has a day before it.
pub open spec fn days_in_month_defined(year: int, month: int) -> bool {
    ||| (month == 12 && MIN_YEAR < year + 1 <= MAX_YEAR)
    ||| (1 <= month <= 11 && MIN_YEAR <= year <= MAX_YEAR)
    ||| (month == 0 && MIN_YEAR < year <= MAX_YEAR)
}

/// The number of days in `month` of `year`, found as the day before the
/// first of the following month (so month 0 reads as the December before).
pub fn days_in_month(year: i32, month: u32) -> (r: u32)
    requires
        days_in_month_defined(year as int, month as int),
    ensures
        r == (if month == 0 { 31 } else { month_length(year as int, month as int) }),
{
    let first = if month == 12 {
        make_date(year + 1, 1, 1)
    } else {
        make_date(year, month + 1, 1)
    };
    let first = match first {
        Some(d) => d,
        None => {
            proof {
                assert(false);
            }
            return 0;
        },
    };
    match previous_day(first) {
        Some(p) => p.day,
        None => {
            proof {
                assert(false);
            }
            0
        },
    }
}

/// The month count `year * 12 + (month - 1)` of `base` moved by `months`.
pub open spec fn month_count(base: CivilDate, months: int) -> int {
    base.year * 12 + (base.month - 1) + months
}

/// The inputs on which `add_months` is defined: the month count fits in an
/// `i64` and is not negative unless a whole number of years (a negative
/// remainder overflows the month arithmetic), and the target month lies in
/// chrono's range with a following month to measure it by.
pub open spec fn add_months_defined(base: CivilDate, months: int) -> bool {
    let total = month_count(base, months);
    &&& i64::MIN <= total <= i64::MAX
    &&& (total >= 0 || total % 12 == 0)
    &&& MIN_YEAR <= total / 12 <= MAX_YEAR
    &&& (total % 12 == 11 ==> total / 12 < MAX_YEAR)
}

/// `base` moved by `months` calendar months, with the day clamped to the
/// length of the target month.
pub open spec fn months_later(base: CivilDate, months: int) -> CivilDate {
    let total = month_count(base, months);
    let y = total / 12;
    let m = total % 12 + 1;
    let len = month_length(y, m);
    CivilDate { year: y as i32, month: m as u32, day: (if base.day <= len { base.day as int } else { len }) as u32 }
}

/// `base` moved by `months` calendar months; a day past the end of the
/// target month becomes its last day (31 January plus one month is
/// 28 February, or the 29th in a leap year).
pub fn add_months(base: CivilDate, months: i64) -> (r: Result<CivilDate, String>)
    requires
        base.valid(),
        add_months_defined(base, months as int),
    ensures
        r == Ok::<CivilDate, String>(months_later(base, months as int)),
        months_later(base, months as int).valid(),
{
    let total_months: i64 = base.year as i64 * 12 + (base.month - 1) as i64 + months;
    let target_year = (total_months / 12) as i32;
    let target_month = (total_months % 12) as u32 + 1;
    proof {
        let t = total_months as int;
        assert(t == month_count(base, months as int));
        if t < 0 {
            assert(t % 12 == 0);
        }
        assert(target_year == t / 12);
        assert(target_month == t % 12 + 1);
    }
    let max_day = days_in_month(target_year, target_month);
    let target_day = if base.day < max_day { base.day } else { max_day };
    match make_date(target_year, target_month, target_day) {
        Some(d) => Ok(d),
        None => {
            proof {
                assert(false);
            }
            Err(String::new())
        },
    }
}

/// The whole months from `from` to `to`: the difference of their month
/// counts, one fewer (toward zero) when the day of the month has not been
/// reached yet.
pub open spec fn approximate_months_spec(from: CivilDate, to: CivilDate) -> int {
    let total = (to.year - from.year) * 12 + (to.month - from.month);
    if total > 0 && to.day < from.day {
        total - 1
    } else if total < 0 && to.day > from.day {
        total + 1
    } else {
        total
    }
}

/// The approximate number of whole months from `from` to `to`.
pub fn approximate_months(from: CivilDate, to: CivilDate) -> (r: i64)
    requires
        from.valid(),
        to.valid(),
    ensures
        r == approximate_months_spec(from, to),
{
    let year_diff = to.year as i64 - from.year as i64;
    let month_diff = to.month as i64 - from.month as i64;
    let total = year_diff * 12 + month_diff;
    if total > 0 && to.day < from.day {
        total - 1
    } else if total < 0 && to.day > from.day {
        total + 1
    } else {
        total
    }
}

} // verus!

verus! {

// ---------------------------------------------------------------------------
// Weekdays
// ---------------------------------------------------------------------------

/// A day of the week.
#[derive(Debug, Clone, Copy, PartialEq, Eq, Structural)]
pub enum Weekday {
    Mon,
    Tue,
    Wed,
    Thu,
    Fri,
    Sat,
    Sun,
}

impl Weekday {
    /// Days from Monday (Monday is 0, Sunday 6).
    pub open spec fn index(self) -> int {
        match self {
            Weekday::Mon => 0,
            Weekday::Tue => 1,
            Weekday::Wed => 2,
            Weekday::Thu => 3,
            Weekday::Fri => 4,
            Weekday::Sat => 5,
            Weekday::Sun => 6,
        }
    }

    /// Days from Monday.
    pub fn number_from_monday(&self) -> (r: u32)
        ensures
            r == self.index(),
    {
        match self {
            Weekday::Mon => 0,
            Weekday::Tue => 1,
            Weekday::Wed => 2,
            Weekday::Thu => 3,
            Weekday::Fri => 4,
            Weekday::Sat => 5,
            Weekday::Sun => 6,
        }
    }
}

/// Whether `c` is `lower` or, for an ASCII letter, its upper-case form.
pub open spec fn same_letter(c: char, lower: char) -> bool {
    c == lower || ('A' <= c && c <= 'Z' && (c as u32) + 32 == lower as u32)
}

/// Whether `s` lower-cases to `name` (an ASCII lower-case word). For such a
/// `name` this is exactly `s.to_lowercase() == name`: a character outside
/// ASCII never lower-cases to a run of ASCII letters of the same length.
pub open spec fn lowercases_to(s: Seq<char>, name: Seq<char>) -> bool {
    s.len() == name.len() && forall|i: int| 0 <= i < s.len() ==> same_letter(#[trigger] s[i], name[i])
}

/// Whether `s` lower-cases to `name`.
pub fn lowercases_to_name(s: &Vec<char>, name: &str) -> (r: bool)
    ensures
        r == lowercases_to(s@, name@),
{
    let ns = crate::text::chars_of(name);
    if s.len() != ns.len() {
        return false;
    }
    let mut i: usize = 0;
    while i < s.len()
        invariant
            s.len() == ns.len(),
            ns@ == name@,
            i <= s.len(),
            forall|j: int| 0 <= j < i ==> same_letter(#[trigger] s@[j], name@[j]),
        decreases s.len() - i,
    {
        let c = s[i];
        let l = ns[i];
        if !(c == l || ('A' <= c && c <= 'Z' && (c as u32) + 32 == l as u32)) {
            return false;
        }
        i = i + 1;
    }
    true
}

/// The weekday that `s` names, in full or by its first three letters, in
/// any letter case.
pub open spec fn weekday_named(s: Seq<char>) -> Option<Weekday> {
    if lowercases_to(s, "monday"@) || lowercases_to(s, "mon"@) { Some(Weekday::Mon) }
    else if lowercases_to(s, "tuesday"@) || lowercases_to(s, "tue"@) { Some(Weekday::Tue) }
    else if lowercases_to(s, "wednesday"@) || lowercases_to(s, "wed"@) { Some(Weekday::Wed) }
    else if lowercases_to(s, "thursday"@) || lowercases_to(s, "thu"@) { Some(Weekday::Thu) }
    else if lowercases_to(s, "friday"@) || lowercases_to(s, "fri"@) { Some(Weekday::Fri) }
    else if lowercases_to(s, "saturday"@) || lowercases_to(s, "sat"@) { Some(Weekday::Sat) }
    else if lowercases_to(s, "sunday"@) || lowercases_to(s, "sun"@) { Some(Weekday::Sun) }
    else { None }
}

/// The weekday `s` names, or the message `Unknown weekday: {s}`.
pub fn parse_weekday(s: &str) -> (r: Result<Weekday, String>)
    ensures
        match r {
            Ok(w) => weekday_named(s@) == Some(w),
            Err(e) => weekday_named(s@) is None && e@ == "Unknown weekday: "@ + s@,
        },
{
    let cs = crate::text::chars_of(s);
    if lowercases_to_name(&cs, "monday") || lowercases_to_name(&cs, "mon") { return Ok(Weekday::Mon); }
    if lowercases_to_name(&cs, "tuesday") || lowercases_to_name(&cs, "tue") { return Ok(Weekday::Tue); }
    if lowercases_to_name(&cs, "wednesday") || lowercases_to_name(&cs, "wed") { return Ok(Weekday::Wed); }
    if lowercases_to_name(&cs, "thursday") || lowercases_to_name(&cs, "thu") { return Ok(Weekday::Thu); }
    if lowercases_to_name(&cs, "friday") || lowercases_to_name(&cs, "fri") { return Ok(Weekday::Fri); }
    if lowercases_to_name(&cs, "saturday") || lowercases_to_name(&cs, "sat") { return Ok(Weekday::Sat); }
    if lowercases_to_name(&cs, "sunday") || lowercases_to_name(&cs, "sun") { return Ok(Weekday::Sun); }
    let mut msg = String::from_str("Unknown weekday: ");
    msg.append(s);
    Err(msg)
}

/// Days from a day with weekday `from` to the next day with weekday `to`
/// (from 1 to 7: a full week when they are the same).
pub open spec fn days_until_next(from: int, to: int) -> int {
    (to - from - 1) % 7 + 1
}

} // verus!

verus! {

// ---------------------------------------------------------------------------
// Offsets
// ---------------------------------------------------------------------------

/// Whether `c` has the Unicode `Alphabetic` property (what
/// `char::is_alphabetic` answers).
pub uninterp spec fn alphabetic(c: char) -> bool;

/// `char::is_alphabetic`. Besides naming the answer, the contract states the
/// one part of the Unicode table the tool relies on: among ASCII characters
/// exactly the letters are alphabetic.
#[verifier::external_body]
fn char_is_alphabetic(c: char) -> (r: bool)
    ensures
        r == alphabetic(c),
        (c as u32) < 128 ==> (r <==> (('a' <= c && c <= 'z') || ('A' <= c && c <= 'Z'))),
{
    c.is_alphabetic()
}

/// The position of the first alphabetic character of `s` (its length if
/// there is none).
pub open spec fn first_alphabetic(s: Seq<char>) -> int
    decreases s.len(),
{
    if s.len() == 0 {
        0
    } else if alphabetic(s[0]) {
        0
    } else {
        1 + first_alphabetic(s.drop_first())
    }
}

/// What an offset asks for, before any date arithmetic.
pub enum OffsetPlan {
    /// Move by this many days.
    Days(int),
    /// Move by this many weeks.
    Weeks(int),
    /// Move by this many calendar months.
    Months(int),
    /// Go to the next day with this weekday (0 = Monday).
    Next(int),
    /// The offset is malformed; the message says why.
    Fail(Seq<char>),
}

/// How `offset` is read: surrounding white space is ignored; `next <day>`
/// names a weekday; otherwise a sign, a number and a unit (`d`, `w` or `M`).
pub open spec fn offset_plan(offset: Seq<char>) -> OffsetPlan {
    let t = crate::text::trim(offset);
    if "next "@.is_prefix_of(t) {
        match weekday_named(crate::text::trim(t.skip(5))) {
            Some(w) => OffsetPlan::Next(w.index()),
            None => OffsetPlan::Fail("Unknown weekday: "@ + crate::text::trim(t.skip(5))),
        }
    } else if t.len() == 0 || (t[0] != '+' && t[0] != '-') {
        OffsetPlan::Fail("Invalid offset \""@ + offset
            + "\": expected format like +1d, -7d, +2w, +1M, or \"next monday\""@)
    } else {
        let sign: int = if t[0] == '+' { 1 } else { -1 };
        let rest = t.skip(1);
        let i = first_alphabetic(rest);
        if i >= rest.len() {
            OffsetPlan::Fail("Invalid offset \""@ + offset + "\": missing unit (d/w/M)"@)
        } else {
            let num = rest.take(i);
            let unit = rest.skip(i);
            match crate::text::parse_i64(num) {
                None => OffsetPlan::Fail("Invalid offset \""@ + offset + "\": \""@ + num
                    + "\" is not a number"@),
                Some(n) => if unit == "d"@ {
                    OffsetPlan::Days(sign * n)
                } else if unit == "w"@ {
                    OffsetPlan::Weeks(sign * n)
                } else if unit == "M"@ {
                    OffsetPlan::Months(sign * n)
                } else {
                    OffsetPlan::Fail("Invalid offset unit \""@ + unit
                        + "\": expected d (days), w (weeks), or M (months)"@)
                },
            }
        }
    }
}

/// Whether the arithmetic that `plan` asks for stays within chrono's range
/// and the integer types (chrono and the integer arithmetic panic outside them).
pub open spec fn plan_fits(base: CivilDate, plan: OffsetPlan) -> bool {
    match plan {
        OffsetPlan::Days(k) => i64::MIN <= k <= i64::MAX
            && first_day_number() <= base.day_number() + k <= last_day_number(),
        OffsetPlan::Weeks(k) => -15250284452 <= k <= 15250284452
            && first_day_number() <= base.day_number() + 7 * k <= last_day_number(),
        OffsetPlan::Months(k) => i64::MIN <= k <= i64::MAX && add_months_defined(base, k),
        OffsetPlan::Next(w) => base.day_number()
            + days_until_next(weekday_index(base.day_number()), w) <= last_day_number(),
        OffsetPlan::Fail(_) => true,
    }
}

/// The offsets that `parse_offset` can apply to `base`.
pub open spec fn offset_defined(base: CivilDate, offset: Seq<char>) -> bool {
    plan_fits(base, offset_plan(offset))
}

/// What `parse_offset` gives for `base` and `offset`.
pub open spec fn offset_applied(base: CivilDate, offset: Seq<char>, r: Result<CivilDate, String>) -> bool {
    match offset_plan(offset) {
        OffsetPlan::Days(k) => r matches Ok(d) && d.valid() && d.day_number() == base.day_number() + k,
        OffsetPlan::Weeks(k) => r matches Ok(d) && d.valid() && d.day_number() == base.day_number() + 7 * k,
        OffsetPlan::Months(k) => r == Ok::<CivilDate, String>(months_later(base, k)),
        OffsetPlan::Next(w) => r matches Ok(d) && d.valid() && d.day_number() == base.day_number()
            + days_until_next(weekday_index(base.day_number()), w),
        OffsetPlan::Fail(m) => r matches Err(e) && e@ == m,
    }
}

} // verus!

verus! {

proof fn lemma_next_weekday(n: int, k: int, t: int)
    requires
        1 <= k <= 7,
        0 <= t < 7,
    ensures
        (weekday_index(n + k) == t) <==> (k == days_until_next(weekday_index(n), t)),
{
    let w0 = weekday_index(n);
    assert(n - 1 == 7 * ((n - 1) / 7) + w0);
    assert(weekday_index(n + k) == (w0 + k) % 7);
}

/// An offset as read from its text, before any date arithmetic.
#[derive(Debug)]
pub enum OffsetRequest {
    /// `sign * n` days.
    Days { sign: i64, n: i64 },
    /// `sign * n` weeks.
    Weeks { sign: i64, n: i64 },
    /// `sign * n` calendar months.
    Months { sign: i64, n: i64 },
    /// The next day with this weekday.
    Next(Weekday),
    /// A malformed offset, with the message that says why.
    Malformed(String),
}

impl OffsetRequest {
    /// What this request asks for.
    pub open spec fn plan(&self) -> OffsetPlan {
        match self {
            OffsetRequest::Days { sign, n } => OffsetPlan::Days(*sign * *n),
            OffsetRequest::Weeks { sign, n } => OffsetPlan::Weeks(*sign * *n),
            OffsetRequest::Months { sign, n } => OffsetPlan::Months(*sign * *n),
            OffsetRequest::Next(w) => OffsetPlan::Next(w.index()),
            OffsetRequest::Malformed(m) => OffsetPlan::Fail(m@),
        }
    }
}

/// Reads an offset: surrounding white space is ignored; `next <day>` names
/// a weekday; otherwise a sign, a number and a unit (`d`, `w` or `M`).
pub fn read_offset(offset: &str) -> (r: OffsetRequest)
    ensures
        r.plan() == offset_plan(offset@),
        r matches OffsetRequest::Days { sign, n } ==> sign == 1 || sign == -1,
        r matches OffsetRequest::Weeks { sign, n } ==> sign == 1 || sign == -1,
        r matches OffsetRequest::Months { sign, n } ==> sign == 1 || sign == -1,
{
    let trimmed = crate::text::trim_text(offset);
    let cs = crate::text::chars_of(trimmed.as_str());
    let n = cs.len();
    let ghost t = crate::text::trim(offset@);
    assert(cs@ == t);
    let next_word = crate::text::chars_of("next ");
    if crate::text::matches_at(&cs, 0, &next_word) {
        proof {
            reveal_strlit("next ");
            assert("next "@.is_prefix_of(t));
        }
        let rest = crate::text::string_of(&cs, 5, n);
        proof {
            assert(rest@ =~= t.skip(5));
        }
        let name = crate::text::trim_text(rest.as_str());
        return match parse_weekday(name.as_str()) {
            Ok(w) => OffsetRequest::Next(w),
            Err(e) => OffsetRequest::Malformed(e),
        };
    }
    proof {
        assert(!"next "@.is_prefix_of(t)) by {
            if "next "@.is_prefix_of(t) {
                assert(crate::text::occurs_at(cs@, 0, next_word@));
            }
        }
    }
    if n == 0 || (cs[0] != '+' && cs[0] != '-') {
        let mut msg = String::from_str("Invalid offset \"");
        msg.append(offset);
        msg.append("\": expected format like +1d, -7d, +2w, +1M, or \"next monday\"");
        return OffsetRequest::Malformed(msg);
    }
    let sign: i64 = if cs[0] == '+' { 1 } else { -1 };
    let ghost rest = t.skip(1);
    let mut i: usize = 1;
    proof {
        assert(cs@.skip(1) == rest);
    }
    while i < n && !char_is_alphabetic(cs[i])
        invariant
            cs@ == t,
            n == cs.len(),
            1 <= i <= n,
            rest == t.skip(1),
            first_alphabetic(rest) == (i - 1) + first_alphabetic(t.skip(i as int)),
        decreases n - i,
    {
        proof {
            assert(t.skip(i as int).drop_first() =~= t.skip(i + 1));
            assert(t.skip(i as int)[0] == cs@[i as int]);
        }
        i = i + 1;
    }
    if i == n {
        proof {
            assert(t.skip(n as int).len() == 0);
        }
        let mut msg = String::from_str("Invalid offset \"");
        msg.append(offset);
        msg.append("\": missing unit (d/w/M)");
        return OffsetRequest::Malformed(msg);
    }
    proof {
        assert(t.skip(i as int)[0] == cs@[i as int]);
        assert(first_alphabetic(rest) == i - 1);
    }
    let num_str = crate::text::string_of(&cs, 1, i);
    let unit = crate::text::string_of(&cs, i, n);
    proof {
        assert(num_str@ =~= rest.take(i - 1));
        assert(unit@ =~= rest.skip(i - 1));
    }
    let num = match crate::text::parse_i64_text(num_str.as_str()) {
        Some(v) => v,
        None => {
            let mut msg = String::from_str("Invalid offset \"");
            msg.append(offset);
            msg.append("\": \"");
            msg.append(num_str.as_str());
            msg.append("\" is not a number");
            return OffsetRequest::Malformed(msg);
        },
    };
    if crate::text::str_eq(unit.as_str(), "d") {
        OffsetRequest::Days { sign, n: num }
    } else if crate::text::str_eq(unit.as_str(), "w") {
        OffsetRequest::Weeks { sign, n: num }
    } else if crate::text::str_eq(unit.as_str(), "M") {
        OffsetRequest::Months { sign, n: num }
    } else {
        let mut msg = String::from_str("Invalid offset unit \"");
        msg.append(unit.as_str());
        msg.append("\": expected d (days), w (weeks), or M (months)");
        OffsetRequest::Malformed(msg)
    }
}

/// The first day after `base` whose weekday is `target`.
pub fn next_weekday(base: CivilDate, target: Weekday) -> (r: CivilDate)
    requires
        base.valid(),
        base.day_number() + days_until_next(weekday_index(base.day_number()), target.index())
            <= last_day_number(),
    ensures
        r.valid(),
        r.day_number() == base.day_number()
            + days_until_next(weekday_index(base.day_number()), target.index()),
        weekday_index(r.day_number()) == target.index(),
{
    let wt = target.number_from_monday();
    let ghost w0 = weekday_index(base.day_number());
    let ghost dist = days_until_next(w0, wt as int);
    proof {
        assert(1 <= dist <= 7);
        lemma_next_weekday(base.day_number(), 1, wt as int);
    }
    let mut d = date_plus_days(base, 1);
    while weekday_number(d) != wt
        invariant
            base.valid(),
            d.valid(),
            0 <= wt < 7,
            w0 == weekday_index(base.day_number()),
            dist == days_until_next(w0, wt as int),
            1 <= dist <= 7,
            base.day_number() + dist <= last_day_number(),
            1 <= d.day_number() - base.day_number() <= dist,
        decreases dist - (d.day_number() - base.day_number()),
    {
        proof {
            lemma_next_weekday(base.day_number(), d.day_number() - base.day_number(), wt as int);
            assert(d.day_number() == base.day_number() + (d.day_number() - base.day_number()));
        }
        d = date_plus_days(d, 1);
    }
    proof {
        lemma_next_weekday(base.day_number(), d.day_number() - base.day_number(), wt as int);
        assert(d.day_number() == base.day_number() + (d.day_number() - base.day_number()));
    }
    d
}

/// Moves `base` by `offset`: `+Nd`/`-Nd` days, `+Nw`/`-Nw` weeks, `+NM`/`-NM`
/// calendar months (clamping the day), or `next <weekday>`, the first later
/// day with that weekday (one to seven days on). A malformed offset gives the
/// message that says what is wrong.
pub fn parse_offset(base: CivilDate, offset: &str) -> (r: Result<CivilDate, String>)
    requires
        base.valid(),
        offset_defined(base, offset@),
    ensures
        offset_applied(base, offset@, r),
{
    match read_offset(offset) {
        OffsetRequest::Days { sign, n } => Ok(date_plus_days(base, sign * n)),
        OffsetRequest::Weeks { sign, n } => Ok(date_plus_weeks(base, sign * n)),
        OffsetRequest::Months { sign, n } => add_months(base, sign * n),
        OffsetRequest::Next(w) => Ok(next_weekday(base, w)),
        OffsetRequest::Malformed(m) => Err(m),
    }
}

} // verus!

verus! {

// ---------------------------------------------------------------------------
// Range checks
// ---------------------------------------------------------------------------

/// Days in the months of `year` before `month`.
fn days_before_month_of(year: i32, month: u32) -> (r: i64)
    requires
        1 <= month <= 12,
        MIN_YEAR <= year <= MAX_YEAR,
    ensures
        r == days_before_month(year as int, month as int),
{
    let yy: u64 = (year as i64 + 400000) as u64;
    let leap: i64 = if (yy % 4 == 0 && yy % 100 != 0) || yy % 400 == 0 { 1 } else { 0 };
    proof {
        let y = year as int;
        assert((y + 400000) % 4 == y % 4) by (nonlinear_arith);
        assert((y + 400000) % 100 == y % 100) by (nonlinear_arith);
        assert((y + 400000) % 400 == y % 400) by (nonlinear_arith);
    }
    if month <= 1 { 0 }
    else if month == 2 { 31 }
    else if month == 3 { 59 + leap }
    else if month == 4 { 90 + leap }
    else if month == 5 { 120 + leap }
    else if month == 6 { 151 + leap }
    else if month == 7 { 181 + leap }
    else if month == 8 { 212 + leap }
    else if month == 9 { 243 + leap }
    else if month == 10 { 273 + leap }
    else if month == 11 { 304 + leap }
    else { 334 + leap }
}

/// The day number of a valid date.
pub fn day_number_of(d: CivilDate) -> (r: i64)
    requires
        d.valid(),
    ensures
        r == d.day_number(),
{
    let p: i64 = d.year as i64 - 1;
    let q: u64 = (p + 400000) as u64;
    let before_year: i64 = 365 * p + (q / 4) as i64 - 100000 - ((q / 100) as i64 - 4000)
        + ((q / 400) as i64 - 1000);
    proof {
        let pi = p as int;
        assert((pi + 400000) / 4 == pi / 4 + 100000) by (nonlinear_arith);
        assert((pi + 400000) / 100 == pi / 100 + 4000) by (nonlinear_arith);
        assert((pi + 400000) / 400 == pi / 400 + 1000) by (nonlinear_arith);
    }
    before_year + days_before_month_of(d.year, d.month) + d.day as i64
}

} // verus!

verus! {

/// Whether the arithmetic `req` asks of `base` stays in range.
pub fn offset_fits(base: CivilDate, req: &OffsetRequest) -> (r: bool)
    requires
        base.valid(),
        req matches OffsetRequest::Days { sign, n } ==> sign == 1 || sign == -1,
        req matches OffsetRequest::Weeks { sign, n } ==> sign == 1 || sign == -1,
        req matches OffsetRequest::Months { sign, n } ==> sign == 1 || sign == -1,
    ensures
        r == plan_fits(base, req.plan()),
{
    let dn = day_number_of(base) as i128;
    let first = day_number_of(CivilDate { year: MIN_YEAR, month: 1, day: 1 }) as i128;
    let last = day_number_of(CivilDate { year: MAX_YEAR, month: 12, day: 31 }) as i128;
    match req {
        OffsetRequest::Days { sign, n } => {
            assert(*sign == 1 || *sign == -1);
            let k: i128 = if *sign == 1 { *n as i128 } else { -(*n as i128) };
            assert(k == *sign * *n) by (nonlinear_arith)
                requires
                    k == (if *sign == 1 { *n as int } else { -(*n as int) }),
                    *sign == 1 || *sign == -1;
            k <= i64::MAX as i128 && first <= dn + k && dn + k <= last
        },
        OffsetRequest::Weeks { sign, n } => {
            assert(*sign == 1 || *sign == -1);
            let k: i128 = if *sign == 1 { *n as i128 } else { -(*n as i128) };
            assert(k == *sign * *n) by (nonlinear_arith)
                requires
                    k == (if *sign == 1 { *n as int } else { -(*n as int) }),
                    *sign == 1 || *sign == -1;
            -15250284452 <= k && k <= 15250284452 && first <= dn + 7 * k && dn + 7 * k <= last
        },
        OffsetRequest::Months { sign, n } => {
            assert(*sign == 1 || *sign == -1);
            let k: i128 = if *sign == 1 { *n as i128 } else { -(*n as i128) };
            assert(k == *sign * *n) by (nonlinear_arith)
                requires
                    k == (if *sign == 1 { *n as int } else { -(*n as int) }),
                    *sign == 1 || *sign == -1;
            if k > i64::MAX as i128 {
                return false;
            }
            let total: i128 = base.year as i128 * 12 + (base.month - 1) as i128 + k;
            if total < i64::MIN as i128 || total > i64::MAX as i128 {
                return false;
            }
            if total >= 0 {
                let t = total as u128;
                let y = (t / 12) as i128;
                proof {
                    assert(y == (total as int) / 12);
                    assert((t % 12) as int == (total as int) % 12);
                }
                y <= MAX_YEAR as i128 && (t % 12 != 11 || y < MAX_YEAR as i128)
            } else {
                let t = (-total) as u128;
                proof {
                    assert((t % 12 == 0) == ((total as int) % 12 == 0)) by {
                        let ti = total as int;
                        if (-ti) % 12 == 0 {
                            assert(ti == -12 * ((-ti) / 12));
                            assert(ti % 12 == 0) by (nonlinear_arith)
                                requires ti == -12 * ((-ti) / 12);
                        }
                        if ti % 12 == 0 {
                            assert(ti == 12 * (ti / 12));
                            assert((-ti) % 12 == 0) by (nonlinear_arith)
                                requires ti == 12 * (ti / 12);
                        }
                    }
                }
                if t % 12 != 0 {
                    return false;
                }
                let y = -((t / 12) as i128);
                proof {
                    let ti = total as int;
                    assert(ti == -12 * ((-ti) / 12)) by (nonlinear_arith)
                        requires (-ti) % 12 == 0, ti < 0;
                    assert(ti / 12 == -((-ti) / 12)) by (nonlinear_arith)
                        requires ti == -12 * ((-ti) / 12);
                }
                MIN_YEAR as i128 <= y
            }
        },
        OffsetRequest::Next(w) => {
            let w0 = weekday_number(base);
            let wt = w.number_from_monday();
            let dist = (wt + 6 - w0) % 7 + 1;
            proof {
                assert(dist == days_until_next(w0 as int, wt as int)) by (nonlinear_arith)
                    requires dist == (wt + 6 - w0) % 7 + 1, 0 <= w0 < 7, 0 <= wt < 7;
            }
            dn + dist as i128 <= last
        },
        OffsetRequest::Malformed(_) => true,
    }
}

} // verus!

verus! {

// ---------------------------------------------------------------------------
// Formatting
// ---------------------------------------------------------------------------

/// The English name of weekday `i` (Monday is 0), as chrono's `%A` writes it.
pub open spec fn weekday_name(i: int) -> Seq<char> {
    if i == 0 { "Monday"@ }
    else if i == 1 { "Tuesday"@ }
    else if i == 2 { "Wednesday"@ }
    else if i == 3 { "Thursday"@ }
    else if i == 4 { "Friday"@ }
    else if i == 5 { "Saturday"@ }
    else { "Sunday"@ }
}

/// The English name of month `m` (January is 1), as chrono's `%B` writes it.
pub open spec fn month_name(m: int) -> Seq<char> {
    if m == 1 { "January"@ }
    else if m == 2 { "February"@ }
    else if m == 3 { "March"@ }
    else if m == 4 { "April"@ }
    else if m == 5 { "May"@ }
    else if m == 6 { "June"@ }
    else if m == 7 { "July"@ }
    else if m == 8 { "August"@ }
    else if m == 9 { "September"@ }
    else if m == 10 { "October"@ }
    else if m == 11 { "November"@ }
    else { "December"@ }
}

/// The name of weekday `i`.
pub fn weekday_name_of(i: u32) -> (r: &'static str)
    ensures
        r@ == weekday_name(i as int),
{
    if i == 0 { "Monday" }
    else if i == 1 { "Tuesday" }
    else if i == 2 { "Wednesday" }
    else if i == 3 { "Thursday" }
    else if i == 4 { "Friday" }
    else if i == 5 { "Saturday" }
    else { "Sunday" }
}

/// The name of month `m`.
pub fn month_name_of(m: u32) -> (r: &'static str)
    ensures
        r@ == month_name(m as int),
{
    if m == 1 { "January" }
    else if m == 2 { "February" }
    else if m == 3 { "March" }
    else if m == 4 { "April" }
    else if m == 5 { "May" }
    else if m == 6 { "June" }
    else if m == 7 { "July" }
    else if m == 8 { "August" }
    else if m == 9 { "September" }
    else if m == 10 { "October" }
    else if m == 11 { "November" }
    else { "December" }
}

/// The English ordinal suffix of a day of the month.
pub open spec fn ordinal_suffix_spec(day: int) -> Seq<char> {
    if day == 1 || day == 21 || day == 31 { "st"@ }
    else if day == 2 || day == 22 { "nd"@ }
    else if day == 3 || day == 23 { "rd"@ }
    else { "th"@ }
}

/// The English ordinal suffix of a day of the month: `st` for 1, 21, 31,
/// `nd` for 2, 22, `rd` for 3, 23, otherwise `th`.
pub fn ordinal_suffix(day: u32) -> (r: &'static str)
    ensures
        r@ == ordinal_suffix_spec(day as int),
{
    if day == 1 || day == 21 || day == 31 { "st" }
    else if day == 2 || day == 22 { "nd" }
    else if day == 3 || day == 23 { "rd" }
    else { "th" }
}

/// `s` unless `n` is one.
pub open spec fn plural_s(n: int) -> Seq<char> {
    if n == 1 { Seq::empty() } else { seq!['s'] }
}

/// A signed day count in words: `0 days`; under a week in days; a whole
/// number of weeks in weeks; otherwise a whole number of 30-day months in
/// months; otherwise in days. Negative counts read `minus ...`.
pub open spec fn human_diff(days: int) -> Seq<char> {
    let a: int = if days < 0 { -days } else { days };
    let prefix = if days < 0 { "minus "@ } else { Seq::empty() };
    if a == 0 {
        "0 days"@
    } else if a < 7 {
        prefix + crate::text::nat_text(a as nat) + " day"@ + plural_s(a)
    } else if a % 7 == 0 {
        prefix + crate::text::nat_text((a / 7) as nat) + " week"@ + plural_s(a / 7)
    } else if a / 30 >= 1 && a % 30 == 0 {
        prefix + crate::text::nat_text((a / 30) as nat) + " month"@ + plural_s(a / 30)
    } else {
        prefix + crate::text::nat_text(a as nat) + " days"@
    }
}

fn push_plural(out: &mut String, n: u64)
    ensures
        final(out)@ == old(out)@ + plural_s(n as int),
{
    if n != 1 {
        out.push('s');
    } else {
        assert(old(out)@ + plural_s(n as int) =~= old(out)@);
    }
}

/// A signed number of days in words (`2 weeks`, `minus 3 days`, ...).
pub fn format_human_diff(days: i64) -> (r: String)
    ensures
        r@ == human_diff(days as int),
{
    let abs_days: u64 = if days < 0 { if days == i64::MIN { 9223372036854775808u64 } else { (-days) as u64 } } else { days as u64 };
    if abs_days == 0 {
        return String::from_str("0 days");
    }
    let mut out = String::new();
    if days < 0 {
        out.append("minus ");
    }
    let ghost prefix = out@;
    let weeks = abs_days / 7;
    let remaining_days = abs_days % 7;
    let months = abs_days / 30;
    if abs_days < 7 {
        crate::text::push_decimal(&mut out, abs_days);
        out.append(" day");
        push_plural(&mut out, abs_days);
    } else if remaining_days == 0 {
        crate::text::push_decimal(&mut out, weeks);
        out.append(" week");
        push_plural(&mut out, weeks);
    } else if months >= 1 && abs_days % 30 == 0 {
        crate::text::push_decimal(&mut out, months);
        out.append(" month");
        push_plural(&mut out, months);
    } else {
        crate::text::push_decimal(&mut out, abs_days);
        out.append(" days");
    }
    proof {
        assert(prefix == (if days < 0 { "minus "@ } else { Seq::<char>::empty() }));
        assert(out@ =~= human_diff(days as int));
    }
    out
}

/// Zero-padded to four digits (more when needed).
pub open spec fn padded4(n: nat) -> Seq<char> {
    if n < 10 {
        seq!['0', '0', '0'] + crate::text::nat_text(n)
    } else if n < 100 {
        seq!['0', '0'] + crate::text::nat_text(n)
    } else if n < 1000 {
        seq!['0'] + crate::text::nat_text(n)
    } else {
        crate::text::nat_text(n)
    }
}

/// A year as chrono's `%Y` writes it: four digits, with a sign outside
/// 0 to 9999.
pub open spec fn year_text(y: int) -> Seq<char> {
    if 0 <= y <= 9999 {
        padded4(y as nat)
    } else if y < 0 {
        seq!['-'] + padded4((-y) as nat)
    } else {
        seq!['+'] + padded4(y as nat)
    }
}

/// A date as chrono's `%Y-%m-%d` writes it.
pub open spec fn date_text(d: CivilDate) -> Seq<char> {
    year_text(d.year as int) + seq!['-'] + crate::text::two_digits(d.month as int) + seq!['-']
        + crate::text::two_digits(d.day as int)
}

fn push_padded4(out: &mut String, n: u64)
    ensures
        final(out)@ == old(out)@ + padded4(n as nat),
{
    let ghost before = out@;
    if n < 10 {
        out.push('0');
        out.push('0');
        out.push('0');
    } else if n < 100 {
        out.push('0');
        out.push('0');
    } else if n < 1000 {
        out.push('0');
    }
    let ghost mid = out@;
    crate::text::push_decimal(out, n);
    proof {
        if n < 10 {
            assert(mid =~= before + seq!['0', '0', '0']);
        } else if n < 100 {
            assert(mid =~= before + seq!['0', '0']);
        } else if n < 1000 {
            assert(mid =~= before + seq!['0']);
        } else {
            assert(mid =~= before);
        }
        assert(out@ =~= before + padded4(n as nat));
    }
}

/// The date in `YYYY-MM-DD` form.
pub fn format_date(d: CivilDate) -> (r: String)
    requires
        d.valid(),
    ensures
        r@ == date_text(d),
{
    let mut out = String::new();
    if 0 <= d.year && d.year <= 9999 {
        push_padded4(&mut out, d.year as u64);
    } else if d.year < 0 {
        out.push('-');
        push_padded4(&mut out, (-(d.year as i64)) as u64);
    } else {
        out.push('+');
        push_padded4(&mut out, d.year as u64);
    }
    out.push('-');
    crate::text::push_two_digits(&mut out, d.month as u64);
    out.push('-');
    crate::text::push_two_digits(&mut out, d.day as u64);
    assert(out@ =~= date_text(d));
    out
}

/// A date in words, as `Wednesday, March 18th, 2026`.
pub open spec fn human_date(d: CivilDate) -> Seq<char> {
    weekday_name(weekday_index(d.day_number())) + ", "@ + month_name(d.month as int) + " "@
        + crate::text::nat_text(d.day as nat) + ordinal_suffix_spec(d.day as int) + ", "@
        + crate::text::int_text(d.year as int)
}

/// The date in words: weekday, month, day with its ordinal suffix, year.
pub fn format_human_date(d: CivilDate) -> (r: String)
    requires
        d.valid(),
    ensures
        r@ == human_date(d),
{
    let mut out = String::new();
    out.append(weekday_name_of(weekday_number(d)));
    out.append(", ");
    out.append(month_name_of(d.month));
    out.append(" ");
    crate::text::push_decimal(&mut out, d.day as u64);
    out.append(ordinal_suffix(d.day));
    out.append(", ");
    crate::text::push_signed_decimal(&mut out, d.year as i64);
    assert(out@ =~= human_date(d));
    out
}

} // verus!

verus! {

// ---------------------------------------------------------------------------
// Time zones and the clock
// ---------------------------------------------------------------------------

/// Whether `name` is an IANA time zone that chrono-tz knows.
pub uninterp spec fn known_time_zone(name: Seq<char>) -> bool;

/// The RFC 3339 text of local midnight on the given date in zone `zone`, if
/// that local time exists exactly once there.
pub uninterp spec fn midnight_rfc3339(zone: Seq<char>, year: i32, month: u32, day: u32) -> Option<Seq<char>>;

/// `name.parse::<chrono_tz::Tz>()` succeeds.
#[verifier::external_body]
fn time_zone_exists(name: &str) -> (r: bool)
    ensures
        r == known_time_zone(name@),
{
    name.parse::<chrono_tz::Tz>().is_ok()
}

/// Local midnight of `d` in zone `zone` as `to_rfc3339` writes it, through
/// `TimeZone::from_local_datetime(..).single()` (absent when midnight is
/// skipped or repeated there).
#[verifier::external_body]
fn local_midnight_text(zone: &str, d: CivilDate) -> (r: Option<String>)
    requires
        known_time_zone(zone@),
        d.valid(),
    ensures
        match r {
            Some(t) => midnight_rfc3339(zone@, d.year, d.month, d.day) == Some(t@),
            None => midnight_rfc3339(zone@, d.year, d.month, d.day) is None,
        },
{
    let tz: chrono_tz::Tz = zone.parse().expect("known zone");
    let nd = chrono::NaiveDate::from_ymd_opt(d.year, d.month, d.day).expect("valid date");
    match tz.from_local_datetime(&nd.and_hms_opt(0, 0, 0).expect("midnight")).single() {
        Some(dt) => Some(dt.to_rfc3339()),
        None => None,
    }
}

/// The current time in a zone: its RFC 3339 text and its local fields.
#[derive(Debug)]
pub struct LocalNow {
    pub iso: String,
    pub date: CivilDate,
    pub hour: u32,
    pub minute: u32,
}

/// `chrono::Utc::now().with_timezone(&zone)`. It depends on the clock, so
/// only what holds of every reading is stated: a valid date and a time of
/// day, and, for years 0 to 9999, that `iso` (chrono's `to_rfc3339`) begins
/// with that date, `T`, that hour and minute, and `:`. The seconds, fraction
/// and offset that follow are left unsaid.
#[verifier::external_body]
fn current_local_time(zone: &str) -> (r: LocalNow)
    requires
        known_time_zone(zone@),
    ensures
        r.date.valid(),
        r.hour < 24,
        r.minute < 60,
        0 <= r.date.year <= 9999 ==> (date_text(r.date) + seq!['T'] + time_text(r.hour as int, r.minute as int)
            + seq![':']).is_prefix_of(r.iso@),
{
    let tz: chrono_tz::Tz = zone.parse().expect("known zone");
    let now = chrono::Utc::now().with_timezone(&tz);
    let date = CivilDate { year: now.year(), month: now.month(), day: now.day() };
    LocalNow { iso: now.to_rfc3339(), date, hour: now.hour(), minute: now.minute() }
}

/// A time of day as `%H:%M`.
pub open spec fn time_text(hour: int, minute: int) -> Seq<char> {
    crate::text::two_digits(hour) + seq![':'] + crate::text::two_digits(minute)
}

/// A date and time in words, as `Tuesday, March 17th, 2026 — 9:05 PM`.
pub open spec fn human_datetime(now: LocalNow) -> Seq<char> {
    let h12: int = if now.hour % 12 == 0 { 12 } else { (now.hour % 12) as int };
    human_date(now.date) + " \u{2014} "@ + crate::text::nat_text(h12 as nat) + seq![':']
        + crate::text::two_digits(now.minute as int) + seq![' ']
        + (if now.hour < 12 { "AM"@ } else { "PM"@ })
}

/// The date and time in words: the date, then the 12-hour clock time.
pub fn format_human_datetime(now: &LocalNow) -> (r: String)
    requires
        now.date.valid(),
        now.hour < 24,
        now.minute < 60,
    ensures
        r@ == human_datetime(*now),
{
    let mut out = format_human_date(now.date);
    out.append(" \u{2014} ");
    let h12: u64 = if now.hour % 12 == 0 { 12 } else { (now.hour % 12) as u64 };
    crate::text::push_decimal(&mut out, h12);
    out.push(':');
    crate::text::push_two_digits(&mut out, now.minute as u64);
    out.push(' ');
    out.append(if now.hour < 12 { "AM" } else { "PM" });
    assert(out@ =~= human_datetime(*now));
    out
}

} // verus!

verus! {

// ---------------------------------------------------------------------------
// The tool's three functions
// ---------------------------------------------------------------------------

/// What `NaiveDate::parse_from_str(text, "%Y-%m-%d")` gives: the year, month
/// and day, or the text of the parse error.
pub uninterp spec fn ymd_parse(text: Seq<char>) -> Result<(i32, u32, u32), Seq<char>>;

/// `NaiveDate::parse_from_str(text, "%Y-%m-%d")`, with the error rendered
/// by its `Display`. A parsed date is always a valid chrono date.
#[verifier::external_body]
fn parse_ymd(text: &str) -> (r: Result<CivilDate, String>)
    ensures
        match r {
            Ok(d) => ymd_parse(text@) == Ok::<(i32, u32, u32), Seq<char>>((d.year, d.month, d.day))
                && d.valid(),
            Err(e) => ymd_parse(text@) == Err::<(i32, u32, u32), Seq<char>>(e@),
        },
{
    match chrono::NaiveDate::parse_from_str(text, "%Y-%m-%d") {
        Ok(d) => Ok(CivilDate { year: d.year(), month: d.month(), day: d.day() }),
        Err(e) => Err(e.to_string()),
    }
}

/// The arguments of a `datetime` call.
#[derive(Debug)]
pub struct DatetimeInput {
    pub function: String,
    pub timezone: Option<String>,
    pub date: Option<String>,
    pub offset: Option<String>,
    pub from: Option<String>,
    pub to: Option<String>,
}

/// The text of an optional string.
pub open spec fn opt_text(o: Option<String>) -> Option<Seq<char>> {
    match o {
        Some(s) => Some(s@),
        None => None,
    }
}

/// The zone a call names, UTC when it names none.
pub open spec fn zone_of(tz: Option<Seq<char>>) -> Seq<char> {
    match tz {
        Some(z) => z,
        None => "UTC"@,
    }
}

/// The zone named by `tz` (UTC when absent), or the error output
/// `Unknown timezone: <name>`.
pub fn resolve_tz(tz: &Option<String>) -> (r: Result<String, ToolOutput>)
    ensures
        match r {
            Ok(z) => z@ == zone_of(opt_text(*tz)) && known_time_zone(z@),
            Err(o) => !known_time_zone(zone_of(opt_text(*tz)))
                && answers(o, Err("Unknown timezone: "@ + zone_of(opt_text(*tz)))),
        },
{
    let name: &str = match tz {
        Some(z) => z.as_str(),
        None => "UTC",
    };
    if time_zone_exists(name) {
        Ok(name.to_string())
    } else {
        let mut msg = String::from_str("Unknown timezone: ");
        msg.append(name);
        Err(ToolOutput::error(msg.as_str()))
    }
}

/// The JSON answer of `get_current_datetime` for a reading of the clock.
pub open spec fn now_json(now: LocalNow) -> JsonSpec {
    JsonSpec::Object(pairs_to_entries(seq![
        ("iso"@, JsonSpec::Str(now.iso@)),
        ("date"@, JsonSpec::Str(date_text(now.date))),
        ("time"@, JsonSpec::Str(time_text(now.hour as int, now.minute as int))),
        ("weekday"@, JsonSpec::Str(weekday_name(weekday_index(now.date.day_number())))),
        ("human"@, JsonSpec::Str(human_datetime(now))),
    ]))
}

/// The answer for a reading of the clock: ISO text, date, time, weekday and
/// the date and time in words.
pub fn current_datetime_output(now: &LocalNow) -> (r: ToolOutput)
    requires
        now.date.valid(),
        now.hour < 24,
        now.minute < 60,
    ensures
        answers(r, Ok(now_json(*now))),
{
    let mut time = String::new();
    crate::text::push_two_digits(&mut time, now.hour as u64);
    time.push(':');
    crate::text::push_two_digits(&mut time, now.minute as u64);
    assert(time@ =~= time_text(now.hour as int, now.minute as int));
    let pairs = vec![
        (String::from_str("iso"), JsonValue::from_str(now.iso.as_str())),
        (String::from_str("date"), JsonValue::from_string(format_date(now.date))),
        (String::from_str("time"), JsonValue::from_string(time)),
        (String::from_str("weekday"), JsonValue::from_str(weekday_name_of(weekday_number(now.date)))),
        (String::from_str("human"), JsonValue::from_string(format_human_datetime(now))),
    ];
    let ghost expected = seq![
        ("iso"@, JsonSpec::Str(now.iso@)),
        ("date"@, JsonSpec::Str(date_text(now.date))),
        ("time"@, JsonSpec::Str(time_text(now.hour as int, now.minute as int))),
        ("weekday"@, JsonSpec::Str(weekday_name(weekday_index(now.date.day_number())))),
        ("human"@, JsonSpec::Str(human_datetime(*now))),
    ];
    assert(specs_of(pairs@) =~= expected);
    ToolOutput::json(JsonValue::object(pairs))
}

/// `get_current_datetime`: the current time in the named zone (UTC by
/// default), or the unknown-zone error.
pub fn handle_get_current_datetime(input: &DatetimeInput) -> (r: ToolOutput)
    ensures
        !known_time_zone(zone_of(opt_text(input.timezone)))
            ==> answers(r, Err("Unknown timezone: "@ + zone_of(opt_text(input.timezone)))),
        known_time_zone(zone_of(opt_text(input.timezone))) ==> exists|now: LocalNow|
            now.date.valid() && now.hour < 24 && now.minute < 60
            && (0 <= now.date.year <= 9999 ==> (date_text(now.date) + seq!['T']
                + time_text(now.hour as int, now.minute as int) + seq![':']).is_prefix_of(now.iso@))
            && #[trigger] answers(r, Ok(now_json(now))),
{
    let zone = match resolve_tz(&input.timezone) {
        Ok(z) => z,
        Err(o) => return o,
    };
    let now = current_local_time(zone.as_str());
    let r = current_datetime_output(&now);
    assert(answers(r, Ok(now_json(now))));
    r
}

/// The JSON answer of `date_add` for local midnight `iso` of date `d`.
pub open spec fn date_add_json(iso: Seq<char>, d: CivilDate) -> JsonSpec {
    JsonSpec::Object(pairs_to_entries(seq![
        ("iso"@, JsonSpec::Str(iso)),
        ("date"@, JsonSpec::Str(date_text(d))),
        ("weekday"@, JsonSpec::Str(weekday_name(weekday_index(d.day_number())))),
        ("human"@, JsonSpec::Str(human_date(d))),
    ]))
}

/// The answer for the moved date `d` in zone `zone`.
pub open spec fn midnight_answer(zone: Seq<char>, d: CivilDate, r: ToolOutput) -> bool {
    match midnight_rfc3339(zone, d.year, d.month, d.day) {
        None => answers(r, Err("Ambiguous or invalid local datetime for timezone"@)),
        Some(iso) => answers(r, Ok(date_add_json(iso, d))),
    }
}

/// The `date_add` calls whose date arithmetic stays in range (outside it
/// chrono's arithmetic panics).
pub open spec fn date_add_defined(tz: Option<Seq<char>>, date: Option<Seq<char>>, offset: Option<Seq<char>>) -> bool {
    match (date, offset) {
        (Some(ds), Some(os)) => match ymd_parse(ds) {
            Ok((y, m, d)) => known_time_zone(zone_of(tz))
                ==> offset_defined(CivilDate { year: y, month: m, day: d }, os),
            Err(_) => true,
        },
        _ => true,
    }
}

/// What `date_add` answers.
pub open spec fn date_add_outcome(tz: Option<Seq<char>>, date: Option<Seq<char>>, offset: Option<Seq<char>>, r: ToolOutput) -> bool {
    let zone = zone_of(tz);
    if !known_time_zone(zone) {
        answers(r, Err("Unknown timezone: "@ + zone))
    } else {
        match date {
            None => answers(r, Err("date_add requires a \"date\" field (YYYY-MM-DD)"@)),
            Some(ds) => match offset {
                None => answers(r, Err("date_add requires an \"offset\" field"@)),
                Some(os) => match ymd_parse(ds) {
                    Err(e) => answers(r, Err("Invalid date \""@ + ds + "\": "@ + e)),
                    Ok((y, m, d)) => match offset_plan(os) {
                        OffsetPlan::Fail(msg) => answers(r, Err(msg)),
                        _ => exists|res: CivilDate|
                            #[trigger] offset_applied(CivilDate { year: y, month: m, day: d }, os, Ok(res))
                                && midnight_answer(zone, res, r),
                    },
                },
            },
        }
    }
}

/// `date_add`: the base date moved by the offset, at local midnight in the
/// zone, with its ISO text, date, weekday and the date in words.
pub fn handle_date_add(input: &DatetimeInput) -> (r: ToolOutput)
    requires
        date_add_defined(opt_text(input.timezone), opt_text(input.date), opt_text(input.offset)),
    ensures
        date_add_outcome(opt_text(input.timezone), opt_text(input.date), opt_text(input.offset), r),
{
    let zone = match resolve_tz(&input.timezone) {
        Ok(z) => z,
        Err(o) => return o,
    };
    let date_str = match &input.date {
        Some(d) => d,
        None => return ToolOutput::error("date_add requires a \"date\" field (YYYY-MM-DD)"),
    };
    let offset_str = match &input.offset {
        Some(o) => o,
        None => return ToolOutput::error("date_add requires an \"offset\" field"),
    };
    let base = match parse_ymd(date_str.as_str()) {
        Ok(d) => d,
        Err(e) => {
            let mut msg = String::from_str("Invalid date \"");
            msg.append(date_str.as_str());
            msg.append("\": ");
            msg.append(e.as_str());
            return ToolOutput::error(msg.as_str());
        },
    };
    let result_date = match parse_offset(base, offset_str.as_str()) {
        Ok(d) => d,
        Err(msg) => return ToolOutput::error(msg.as_str()),
    };
    let ghost applied = offset_applied(base, offset_str@, Ok(result_date));
    assert(applied);
    proof {
        if offset_plan(offset_str@) is Fail {
            assert(false);
        }
    }
    let iso = match local_midnight_text(zone.as_str(), result_date) {
        Some(t) => t,
        None => {
            let r = ToolOutput::error("Ambiguous or invalid local datetime for timezone");
            assert(midnight_answer(zone@, result_date, r));
            return r;
        },
    };
    let pairs = vec![
        (String::from_str("iso"), JsonValue::from_str(iso.as_str())),
        (String::from_str("date"), JsonValue::from_string(format_date(result_date))),
        (String::from_str("weekday"), JsonValue::from_str(weekday_name_of(weekday_number(result_date)))),
        (String::from_str("human"), JsonValue::from_string(format_human_date(result_date))),
    ];
    let ghost expected = seq![
        ("iso"@, JsonSpec::Str(iso@)),
        ("date"@, JsonSpec::Str(date_text(result_date))),
        ("weekday"@, JsonSpec::Str(weekday_name(weekday_index(result_date.day_number())))),
        ("human"@, JsonSpec::Str(human_date(result_date))),
    ];
    assert(specs_of(pairs@) =~= expected);
    let r = ToolOutput::json(JsonValue::object(pairs));
    assert(midnight_answer(zone@, result_date, r));
    r
}

} // verus!

verus! {

/// The JSON answer of `date_diff` from `a` to `b`: signed days, whole weeks,
/// approximate months and the day count in words.
pub open spec fn date_diff_json(a: CivilDate, b: CivilDate) -> JsonSpec {
    let days = b.day_number() - a.day_number();
    let abs_days = if days < 0 { -days } else { days };
    diff_object(days, abs_days / 7, approximate_months_spec(a, b), human_diff(days))
}

/// The JSON object of a date difference with these fields.
pub open spec fn diff_object(days: int, weeks: int, months: int, human: Seq<char>) -> JsonSpec {
    JsonSpec::Object(pairs_to_entries(seq![
        ("days"@, JsonSpec::Number(crate::json::JsonNumber::Int(days as i128))),
        ("weeks"@, JsonSpec::Number(crate::json::JsonNumber::Int(weeks as i128))),
        ("months"@, JsonSpec::Number(crate::json::JsonNumber::Int(months as i128))),
        ("human"@, JsonSpec::Str(human)),
    ]))
}

/// What `date_diff` answers.
pub open spec fn date_diff_answer(from: Option<Seq<char>>, to: Option<Seq<char>>) -> Result<JsonSpec, Seq<char>> {
    match from {
        None => Err("date_diff requires a \"from\" field (YYYY-MM-DD)"@),
        Some(f) => match to {
            None => Err("date_diff requires a \"to\" field (YYYY-MM-DD)"@),
            Some(t) => match ymd_parse(f) {
                Err(e) => Err("Invalid from date \""@ + f + "\": "@ + e),
                Ok((fy, fm, fd)) => match ymd_parse(t) {
                    Err(e) => Err("Invalid to date \""@ + t + "\": "@ + e),
                    Ok((ty, tm, td)) => Ok(date_diff_json(
                        CivilDate { year: fy, month: fm, day: fd },
                        CivilDate { year: ty, month: tm, day: td },
                    )),
                },
            },
        },
    }
}

/// `date_diff`: the distance between two dates.
pub fn handle_date_diff(input: &DatetimeInput) -> (r: ToolOutput)
    ensures
        answers(r, date_diff_answer(opt_text(input.from), opt_text(input.to))),
{
    let from_str = match &input.from {
        Some(f) => f,
        None => return ToolOutput::error("date_diff requires a \"from\" field (YYYY-MM-DD)"),
    };
    let to_str = match &input.to {
        Some(t) => t,
        None => return ToolOutput::error("date_diff requires a \"to\" field (YYYY-MM-DD)"),
    };
    let from = match parse_ymd(from_str.as_str()) {
        Ok(d) => d,
        Err(e) => {
            let mut msg = String::from_str("Invalid from date \"");
            msg.append(from_str.as_str());
            msg.append("\": ");
            msg.append(e.as_str());
            return ToolOutput::error(msg.as_str());
        },
    };
    let to = match parse_ymd(to_str.as_str()) {
        Ok(d) => d,
        Err(e) => {
            let mut msg = String::from_str("Invalid to date \"");
            msg.append(to_str.as_str());
            msg.append("\": ");
            msg.append(e.as_str());
            return ToolOutput::error(msg.as_str());
        },
    };
    let days = days_between(from, to);
    let abs_days: u64 = if days < 0 { (-days) as u64 } else { days as u64 };
    let weeks = abs_days / 7;
    let months = approximate_months(from, to);
    let human = format_human_diff(days);
    let pairs = vec![
        (String::from_str("days"), JsonValue::from_i64(days)),
        (String::from_str("weeks"), JsonValue::from_u64(weeks)),
        (String::from_str("months"), JsonValue::from_i64(months)),
        (String::from_str("human"), JsonValue::from_string(human)),
    ];
    let ghost expected = seq![
        ("days"@, JsonSpec::Number(crate::json::JsonNumber::Int(days as i128))),
        ("weeks"@, JsonSpec::Number(crate::json::JsonNumber::Int(weeks as i128))),
        ("months"@, JsonSpec::Number(crate::json::JsonNumber::Int(months as i128))),
        ("human"@, JsonSpec::Str(human_diff(days as int))),
    ];
    assert(specs_of(pairs@) =~= expected);
    ToolOutput::json(JsonValue::object(pairs))
}

/// Whether the call can be answered without leaving the range of the date
/// arithmetic (always, except `date_add` on such an offset).
pub open spec fn call_defined(input: DatetimeInput) -> bool {
    input.function@ == "date_add"@
        ==> date_add_defined(opt_text(input.timezone), opt_text(input.date), opt_text(input.offset))
}

/// What a `datetime` call answers, by its `function`.
pub open spec fn call_outcome(input: DatetimeInput, r: ToolOutput) -> bool {
    let f = input.function@;
    if f == "get_current_datetime"@ {
        &&& !known_time_zone(zone_of(opt_text(input.timezone)))
            ==> answers(r, Err("Unknown timezone: "@ + zone_of(opt_text(input.timezone))))
        &&& known_time_zone(zone_of(opt_text(input.timezone))) ==> exists|now: LocalNow|
            now.date.valid() && now.hour < 24 && now.minute < 60 && #[trigger] answers(r, Ok(now_json(now)))
    } else if f == "date_add"@ {
        date_add_outcome(opt_text(input.timezone), opt_text(input.date), opt_text(input.offset), r)
    } else if f == "date_diff"@ {
        answers(r, date_diff_answer(opt_text(input.from), opt_text(input.to)))
    } else {
        answers(r, Err("Unknown function: "@ + f
            + ". Expected one of: get_current_datetime, date_add, date_diff"@))
    }
}

/// Whether a `date_add` call stays in range.
pub fn date_add_supported(input: &DatetimeInput) -> (r: bool)
    ensures
        r == date_add_defined(opt_text(input.timezone), opt_text(input.date), opt_text(input.offset)),
{
    let (date_str, offset_str) = match (&input.date, &input.offset) {
        (Some(d), Some(o)) => (d, o),
        _ => return true,
    };
    let base = match parse_ymd(date_str.as_str()) {
        Ok(d) => d,
        Err(_) => return true,
    };
    let name: &str = match &input.timezone {
        Some(z) => z.as_str(),
        None => "UTC",
    };
    if !time_zone_exists(name) {
        return true;
    }
    let req = read_offset(offset_str.as_str());
    offset_fits(base, &req)
}

/// The built-in `datetime` tool: current time, date offsets and date
/// differences.
#[derive(Debug)]
pub struct DatetimeTool;

impl DatetimeTool {
    /// The tool.
    pub fn new() -> Self {
        DatetimeTool
    }

    /// Answers a call by its `function`: `get_current_datetime`, `date_add`
    /// or `date_diff`; any other name is an error naming the three.
    pub fn call(&self, input: &DatetimeInput) -> (r: ToolOutput)
        requires
            call_defined(*input),
        ensures
            call_outcome(*input, r),
    {
        if crate::text::str_eq(input.function.as_str(), "get_current_datetime") {
            handle_get_current_datetime(input)
        } else if crate::text::str_eq(input.function.as_str(), "date_add") {
            handle_date_add(input)
        } else if crate::text::str_eq(input.function.as_str(), "date_diff") {
            handle_date_diff(input)
        } else {
            let mut msg = String::from_str("Unknown function: ");
            msg.append(input.function.as_str());
            msg.append(". Expected one of: get_current_datetime, date_add, date_diff");
            ToolOutput::error(msg.as_str())
        }
    }

    /// Answers a call, or `None` where its date arithmetic would leave the
    /// representable range.
    pub fn try_call(&self, input: &DatetimeInput) -> (r: Option<ToolOutput>)
        ensures
            r is Some <==> call_defined(*input),
            r matches Some(o) ==> call_outcome(*input, o),
    {
        if crate::text::str_eq(input.function.as_str(), "date_add") && !date_add_supported(input) {
            None
        } else {
            Some(self.call(input))
        }
    }
}

impl Default for DatetimeTool {
    fn default() -> Self {
        DatetimeTool::new()
    }
}

} // verus!

verus! {

// ---------------------------------------------------------------------------
// Laws of the calendar
// ---------------------------------------------------------------------------

/// The number of days of year `y`.
pub open spec fn year_length(y: int) -> int {
    if is_leap_year(y) { 366 } else { 365 }
}

proof fn lemma_year_step(y: int)
    ensures
        days_before_year(y + 1) == days_before_year(y) + year_length(y),
{
    let p = y - 1;
    assert(y / 4 - p / 4 == (if y % 4 == 0 { 1int } else { 0int })) by (nonlinear_arith)
        requires p == y - 1;
    assert(y / 100 - p / 100 == (if y % 100 == 0 { 1int } else { 0int })) by (nonlinear_arith)
        requires p == y - 1;
    assert(y / 400 - p / 400 == (if y % 400 == 0 { 1int } else { 0int })) by (nonlinear_arith)
        requires p == y - 1;
    assert(y % 400 == 0 ==> y % 100 == 0) by (nonlinear_arith);
    assert(y % 100 == 0 ==> y % 4 == 0) by (nonlinear_arith);
}

proof fn lemma_years_grow(y1: int, y2: int)
    requires
        y1 < y2,
    ensures
        days_before_year(y1) + year_length(y1) <= days_before_year(y2),
    decreases y2 - y1,
{
    lemma_year_step(y1);
    if y1 + 1 < y2 {
        lemma_years_grow(y1 + 1, y2);
    }
}

proof fn lemma_day_of_year_bounds(d: CivilDate)
    requires
        d.valid(),
    ensures
        1 <= days_before_month(d.year as int, d.month as int) + d.day <= year_length(d.year as int),
{
}

proof fn lemma_months_grow(y: int, m1: int, d1: int, m2: int, d2: int)
    requires
        1 <= m1 < m2 <= 12,
        1 <= d1 <= month_length(y, m1),
        1 <= d2,
    ensures
        days_before_month(y, m1) + d1 < days_before_month(y, m2) + d2,
{
}

/// Distinct valid dates have distinct day numbers, so a date is fixed by its
/// day number: the contracts that give a result by its day number pin it.
pub proof fn lemma_day_number_injective(a: CivilDate, b: CivilDate)
    requires
        a.valid(),
        b.valid(),
        a.day_number() == b.day_number(),
    ensures
        a == b,
{
    lemma_day_of_year_bounds(a);
    lemma_day_of_year_bounds(b);
    if a.year < b.year {
        lemma_years_grow(a.year as int, b.year as int);
        assert(false);
    } else if b.year < a.year {
        lemma_years_grow(b.year as int, a.year as int);
        assert(false);
    }
    if a.month < b.month {
        lemma_months_grow(a.year as int, a.month as int, a.day as int, b.month as int, b.day as int);
    } else if b.month < a.month {
        lemma_months_grow(a.year as int, b.month as int, b.day as int, a.month as int, a.day as int);
    }
}

} // verus!

verus! {

/// A week is seven days: an offset of `+Nw` lands on the same date as one of
/// `7N` days.
pub proof fn lemma_weeks_are_seven_days(base: CivilDate, weeks: int, by_weeks: CivilDate, by_days: CivilDate)
    requires
        base.valid(),
        offset_applied_plan(base, OffsetPlan::Weeks(weeks), by_weeks),
        offset_applied_plan(base, OffsetPlan::Days(7 * weeks), by_days),
    ensures
        by_weeks == by_days,
{
    lemma_day_number_injective(by_weeks, by_days);
}

/// What applying `plan` to `base` gives, when it gives a date.
pub open spec fn offset_applied_plan(base: CivilDate, plan: OffsetPlan, d: CivilDate) -> bool {
    match plan {
        OffsetPlan::Days(k) => d.valid() && d.day_number() == base.day_number() + k,
        OffsetPlan::Weeks(k) => d.valid() && d.day_number() == base.day_number() + 7 * k,
        OffsetPlan::Months(k) => d == months_later(base, k),
        OffsetPlan::Next(w) => d.valid() && d.day_number() == base.day_number()
            + days_until_next(weekday_index(base.day_number()), w),
        OffsetPlan::Fail(_) => false,
    }
}

/// `next <weekday>` lands on that weekday, one to seven days after the base
/// date, and no day in between has that weekday.
pub proof fn lemma_next_weekday_is_first(base: CivilDate, w: int, d: CivilDate)
    requires
        base.valid(),
        0 <= w < 7,
        offset_applied_plan(base, OffsetPlan::Next(w), d),
    ensures
        weekday_index(d.day_number()) == w,
        1 <= d.day_number() - base.day_number() <= 7,
        forall|k: int| 1 <= k < d.day_number() - base.day_number()
            ==> #[trigger] weekday_index(base.day_number() + k) != w,
{
    let dist = d.day_number() - base.day_number();
    lemma_next_weekday(base.day_number(), dist, w);
    assert(d.day_number() == base.day_number() + dist);
    assert forall|k: int| 1 <= k < dist implies #[trigger] weekday_index(base.day_number() + k) != w by {
        lemma_next_weekday(base.day_number(), k, w);
    }
}

/// Swapping the two dates of a difference negates the days and the months,
/// keeps the weeks, and puts `minus ` before the words.
pub proof fn lemma_date_diff_reverses(a: CivilDate, b: CivilDate)
    requires
        a.day_number() < b.day_number(),
    ensures
        date_diff_json(a, b) == diff_object(b.day_number() - a.day_number(), (b.day_number() - a.day_number()) / 7,
            approximate_months_spec(a, b), human_diff(b.day_number() - a.day_number())),
        date_diff_json(b, a) == diff_object(-(b.day_number() - a.day_number()), (b.day_number() - a.day_number()) / 7,
            -approximate_months_spec(a, b), "minus "@ + human_diff(b.day_number() - a.day_number())),
{
    let n = b.day_number() - a.day_number();
    lemma_human_diff_negation(n);
    assert(approximate_months_spec(b, a) == -approximate_months_spec(a, b));
    assert(-(a.day_number() - b.day_number()) == n);
}

/// An offset written `next <weekday>` (the day in full or by its first three
/// letters, any letter case, white space around ignored) lands on that
/// weekday, one to seven days after the base date, and no day in between
/// has that weekday.
pub proof fn lemma_next_named_weekday(base: CivilDate, offset: Seq<char>, w: Weekday, r: Result<CivilDate, String>)
    requires
        base.valid(),
        "next "@.is_prefix_of(crate::text::trim(offset)),
        weekday_named(crate::text::trim(crate::text::trim(offset).skip(5))) == Some(w),
        offset_applied(base, offset, r),
    ensures
        r matches Ok(d) && weekday_index(d.day_number()) == w.index()
            && 1 <= d.day_number() - base.day_number() <= 7
            && forall|k: int| 1 <= k < d.day_number() - base.day_number()
                ==> #[trigger] weekday_index(base.day_number() + k) != w.index(),
{
    assert(offset_plan(offset) == OffsetPlan::Next(w.index()));
    let d = r->Ok_0;
    lemma_next_weekday_is_first(base, w.index(), d);
}

/// Moving by calendar months moves the month count by exactly that many
/// months, keeps the day when the target month has it, and otherwise gives
/// the target month's last day.
pub proof fn lemma_months_later_clamps(base: CivilDate, months: int)
    requires
        base.valid(),
        add_months_defined(base, months),
    ensures
        months_later(base, months).valid(),
        month_count(months_later(base, months), 0) == month_count(base, months),
        months_later(base, months).day <= base.day,
        base.day <= 28 ==> months_later(base, months).day == base.day,
        months_later(base, months).day < base.day ==> months_later(base, months).day
            == month_length(months_later(base, months).year as int, months_later(base, months).month as int),
{
    let total = month_count(base, months);
    assert(total == 12 * (total / 12) + total % 12);
}

/// Whole months between two dates on the same day of the month count every
/// month of every year between them: twelve per year plus the difference of
/// the months (one year later on the same day is 12).
pub proof fn lemma_whole_months_same_day(from: CivilDate, to: CivilDate)
    requires
        to.day == from.day,
    ensures
        approximate_months_spec(from, to) == 12 * (to.year - from.year) + (to.month - from.month),
        to.year == from.year + 1 && to.month == from.month ==> approximate_months_spec(from, to) == 12,
{
}

/// Moving a date by `k` calendar months (with a day of the month every
/// month has) and measuring the whole months back gives `k`.
pub proof fn lemma_whole_months_round_trip(base: CivilDate, k: int)
    requires
        base.valid(),
        base.day <= 28,
        add_months_defined(base, k),
    ensures
        approximate_months_spec(base, months_later(base, k)) == k,
        approximate_months_spec(months_later(base, k), base) == -k,
{
    lemma_months_later_clamps(base, k);
    let d = months_later(base, k);
    assert(d.year * 12 + (d.month - 1) == base.year * 12 + (base.month - 1) + k);
}

/// Whole months never differ from the difference of the month counts by
/// more than one, and lie toward zero from it: they fall one short exactly
/// when the day of the month has not been reached yet.
pub proof fn lemma_whole_months_near_month_count(from: CivilDate, to: CivilDate)
    ensures
        ({
            let total = 12 * (to.year - from.year) + (to.month - from.month);
            let m = approximate_months_spec(from, to);
            &&& total >= 0 ==> 0 <= m <= total && total - m <= 1
            &&& total <= 0 ==> total <= m <= 0 && m - total <= 1
            &&& (to.day == from.day ==> m == total)
            &&& (total > 0 ==> (m == total <==> to.day >= from.day))
            &&& (total < 0 ==> (m == total <==> to.day <= from.day))
        }),
{
}

/// The time in words is on the 12-hour clock: it ends in `PM` exactly when
/// the local hour is 12 or later and in `AM` otherwise, and the hour shown
/// is the one from 1 to 12 that agrees with the local hour modulo 12 (so
/// midnight and noon read 12).
pub proof fn lemma_human_time_is_twelve_hour(now: LocalNow)
    requires
        now.hour < 24,
        now.minute < 60,
    ensures
        forall|h: int| 1 <= h <= 12 && h % 12 == now.hour % 12
            ==> human_datetime(now) == human_date(now.date) + " \u{2014} "@ + #[trigger] crate::text::nat_text(h as nat)
                + seq![':'] + crate::text::two_digits(now.minute as int) + seq![' ']
                + (if now.hour >= 12 { "PM"@ } else { "AM"@ }),
        ({
            let t = human_datetime(now);
            &&& t.skip(t.len() - 2) == "PM"@ <==> now.hour >= 12
            &&& t.skip(t.len() - 2) == "AM"@ <==> now.hour < 12
        }),
{
    reveal_strlit("AM");
    reveal_strlit("PM");
    let h: int = if now.hour % 12 == 0 { 12 } else { (now.hour % 12) as int };
    let p = human_date(now.date) + " \u{2014} "@;
    let ampm = if now.hour >= 12 { "PM"@ } else { "AM"@ };
    let t = human_datetime(now);
    assert(t =~= p + crate::text::nat_text(h as nat) + seq![':'] + crate::text::two_digits(now.minute as int)
        + seq![' '] + ampm);
    assert(t.skip(t.len() - 2) =~= ampm);
    assert forall|h2: int| 1 <= h2 <= 12 && h2 % 12 == now.hour % 12 implies
        human_datetime(now) == human_date(now.date) + " \u{2014} "@ + #[trigger] crate::text::nat_text(h2 as nat)
            + seq![':'] + crate::text::two_digits(now.minute as int) + seq![' '] + ampm by {
        assert(h2 == h);
    }
    assert("AM"@ != "PM"@) by {
        assert("AM"@[0] != "PM"@[0]);
    }
}

/// A negative day count reads as `minus` followed by the positive count.
pub proof fn lemma_human_diff_negation(n: int)
    requires
        n > 0,
    ensures
        human_diff(-n) == "minus "@ + human_diff(n),
{
    let t = crate::text::nat_text(n as nat);
    if n < 7 {
        assert(human_diff(-n) =~= "minus "@ + (t + " day"@ + plural_s(n)));
    } else if n % 7 == 0 {
        assert(human_diff(-n) =~= "minus "@ + (crate::text::nat_text((n / 7) as nat) + " week"@ + plural_s(n / 7)));
    } else if n / 30 >= 1 && n % 30 == 0 {
        assert(human_diff(-n) =~= "minus "@ + (crate::text::nat_text((n / 30) as nat) + " month"@ + plural_s(n / 30)));
    } else {
        assert(human_diff(-n) =~= "minus "@ + (t + " days"@));
    }
}

} // verus!

verus! {

/// Moving a date `n` weeks ahead (`+nw`) and measuring the distance back
/// reads as `n` weeks.
pub proof fn lemma_weeks_round_trip(base: CivilDate, n: int, d: CivilDate)
    requires
        n >= 1,
        offset_applied_plan(base, OffsetPlan::Weeks(n), d),
    ensures
        d.day_number() - base.day_number() == 7 * n,
        human_diff(d.day_number() - base.day_number())
            == crate::text::nat_text(n as nat) + " week"@ + plural_s(n),
{
    let k = d.day_number() - base.day_number();
    assert(k % 7 == 0 && k / 7 == n) by (nonlinear_arith)
        requires k == 7 * n;
    assert(human_diff(k) =~= crate::text::nat_text(n as nat) + " week"@ + plural_s(n));
}

} // verus!
