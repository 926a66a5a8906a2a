//! Calendar dates for catalogue requests: a long search is split into
//! pieces of at most one year, each requested on its own.

use vstd::prelude::*;
use chrono::{Datelike, Timelike};

verus! {

/// A day of the proleptic Gregorian calendar.
#[derive(Debug, Clone, Copy, PartialEq, Eq, Structural)]
pub struct CalendarDate {
    pub year: i32,
    pub month: u32,
    pub day: u32,
}

/// The earliest and latest years a date may have.
pub open spec fn min_year() -> int { -262143 }
/// The latest year a date may have.
pub open spec fn max_year() -> int { 262142 }

/// Whether a year of the proleptic Gregorian calendar is a leap year.
pub open spec fn is_leap(y: int) -> bool {
    (y % 4 == 0 && y % 100 != 0) || y % 400 == 0
}

/// The number of days of month `m` of year `y`.
pub open spec fn days_in_month(y: int, m: int) -> int {
    if m == 2 {
        if is_leap(y) { 29 } else { 28 }
    } else if m == 4 || m == 6 || m == 9 || m == 11 {
        30
    } else {
        31
    }
}

/// A date that exists in the calendar and in the supported range of years.
pub open spec fn is_valid_date(y: int, m: int, d: int) -> bool {
    min_year() <= y <= max_year() && 1 <= m <= 12 && 1 <= d <= days_in_month(y, m)
}

/// A date that exists and is supported.
pub open spec fn valid(d: CalendarDate) -> bool {
    is_valid_date(d.year as int, d.month as int, d.day as int)
}

/// Date `a` is on or before date `b`.
pub open spec fn date_le(a: CalendarDate, b: CalendarDate) -> bool {
    a.year < b.year || (a.year == b.year && (a.month < b.month || (a.month == b.month && a.day <= b.day)))
}

/// The day before a valid date.
pub open spec fn spec_pred(d: CalendarDate) -> CalendarDate {
    if d.day > 1 {
        CalendarDate { year: d.year, month: d.month, day: (d.day - 1) as u32 }
    } else if d.month > 1 {
        CalendarDate { year: d.year, month: (d.month - 1) as u32, day: days_in_month(d.year as int, d.month - 1) as u32 }
    } else {
        CalendarDate { year: (d.year - 1) as i32, month: 12, day: 31 }
    }
}

/// The day after a valid date.
pub open spec fn spec_succ(d: CalendarDate) -> CalendarDate {
    if (d.day as int) < days_in_month(d.year as int, d.month as int) {
        CalendarDate { year: d.year, month: d.month, day: (d.day + 1) as u32 }
    } else if d.month < 12 {
        CalendarDate { year: d.year, month: (d.month + 1) as u32, day: 1 }
    } else {
        CalendarDate { year: (d.year + 1) as i32, month: 1, day: 1 }
    }
}

/// The first supported date.
pub open spec fn first_date() -> CalendarDate {
    CalendarDate { year: -262143i32, month: 1u32, day: 1u32 }
}

/// The last supported date.
pub open spec fn last_date() -> CalendarDate {
    CalendarDate { year: 262142i32, month: 12u32, day: 31u32 }
}

/// Calls `NaiveDate::from_ymd_opt`, which gives a date exactly when the
/// year is in chrono's range and the month and day exist.
#[verifier::external_body]
fn date_exists(y: i32, m: u32, d: u32) -> (r: bool)
    ensures
        r == is_valid_date(y as int, m as int, d as int),
{
    chrono::NaiveDate::from_ymd_opt(y, m, d).is_some()
}

/// Calls `NaiveDate - TimeDelta` with one day: the previous calendar day.
/// It panics before the first date, which `requires` leaves out.
#[verifier::external_body]
fn day_before(d: CalendarDate) -> (r: CalendarDate)
    requires
        valid(d),
        d != first_date(),
    ensures
        r == spec_pred(d),
{
    let nd = chrono::NaiveDate::from_ymd_opt(d.year, d.month, d.day).unwrap() - chrono::TimeDelta::days(1);
    CalendarDate { year: nd.year(), month: nd.month(), day: nd.day() }
}

/// Calls `NaiveDate + TimeDelta` with one day: the next calendar day.
/// It panics after the last date, which `requires` leaves out.
#[verifier::external_body]
fn day_after(d: CalendarDate) -> (r: CalendarDate)
    requires
        valid(d),
        d != last_date(),
    ensures
        r == spec_succ(d),
{
    let nd = chrono::NaiveDate::from_ymd_opt(d.year, d.month, d.day).unwrap() + chrono::TimeDelta::days(1);
    CalendarDate { year: nd.year(), month: nd.month(), day: nd.day() }
}

/// Whether date `a` is on or before date `b`.
pub fn is_on_or_before(a: CalendarDate, b: CalendarDate) -> (r: bool)
    ensures
        r == date_le(a, b),
{
    a.year < b.year || (a.year == b.year && (a.month < b.month || (a.month == b.month && a.day <= b.day)))
}

/// The last day of the piece of a search that starts on `current`: the day
/// before the same date one year later (the day before `end` when that date
/// does not exist), but never after `end`.
pub open spec fn spec_chunk_end(current: CalendarDate, end: CalendarDate) -> CalendarDate {
    let cand = if is_valid_date(current.year + 1, current.month as int, current.day as int) {
        spec_pred(CalendarDate { year: (current.year + 1) as i32, month: current.month, day: current.day })
    } else {
        spec_pred(end)
    };
    if date_le(end, cand) { end } else { cand }
}

/// The next piece of a catalogue search from `current` to `end`: its last
/// day, and the day the following piece starts on.
pub fn next_chunk(current: CalendarDate, end: CalendarDate) -> (r: (CalendarDate, CalendarDate))
    requires
        valid(current),
        valid(end),
        date_le(current, end),
        !is_valid_date(current.year + 1, current.month as int, current.day as int) ==> end != first_date(),
        spec_chunk_end(current, end) != last_date(),
    ensures
        r.0 == spec_chunk_end(current, end),
        r.1 == spec_succ(r.0),
{
    let next_year_exists = current.year < 262142 && date_exists(current.year + 1, current.month, current.day);
    let cand = if next_year_exists {
        let anniversary = CalendarDate { year: current.year + 1, month: current.month, day: current.day };
        proof {
            assert(valid(anniversary));
        }
        day_before(anniversary)
    } else {
        day_before(end)
    };
    let chunk_end = if is_on_or_before(end, cand) { end } else { cand };
    proof {
        lemma_pred_valid(if next_year_exists { CalendarDate { year: (current.year + 1) as i32, month: current.month, day: current.day } } else { end });
    }
    let next = day_after(chunk_end);
    (chunk_end, next)
}

/// The day before a valid date other than the first is valid.
pub proof fn lemma_pred_valid(d: CalendarDate)
    requires
        valid(d),
        d != first_date(),
    ensures
        valid(spec_pred(d)),
{
}

/// The day before a date is the latest valid date before it.
pub proof fn lemma_pred_is_previous(d: CalendarDate, c: CalendarDate)
    requires
        valid(d),
        valid(c),
        date_le(c, d),
        c != d,
    ensures
        date_le(c, spec_pred(d)),
        date_le(spec_pred(d), d),
        spec_pred(d) != d,
{
}

/// The day after a date is the earliest valid date after it.
pub proof fn lemma_succ_is_next(d: CalendarDate, c: CalendarDate)
    requires
        valid(d),
        d != last_date(),
        valid(c),
        date_le(d, c),
        c != d,
    ensures
        date_le(spec_succ(d), c),
        date_le(d, spec_succ(d)),
        spec_succ(d) != d,
        valid(spec_succ(d)),
{
}

/// The pieces of a search tile it: unless the piece starts on its last day
/// and that day has no anniversary (29 February with `end` on that day, or
/// the last supported year), a piece starting on `current` ends on or after
/// `current` and on or before `end`, and the next one starts the day after
/// it, strictly after `current`.
pub proof fn law_chunks_tile(current: CalendarDate, end: CalendarDate)
    requires
        valid(current),
        valid(end),
        date_le(current, end),
        !(current == end && !is_valid_date(current.year + 1, current.month as int, current.day as int)),
    ensures
        date_le(current, spec_chunk_end(current, end)),
        date_le(spec_chunk_end(current, end), end),
        valid(spec_chunk_end(current, end)),
{
    let ce = spec_chunk_end(current, end);
    if is_valid_date(current.year + 1, current.month as int, current.day as int) {
        let a = CalendarDate { year: (current.year + 1) as i32, month: current.month, day: current.day };
        lemma_pred_is_previous(a, current);
        lemma_pred_valid(a);
    } else {
        lemma_pred_is_previous(end, current);
        lemma_pred_valid(end);
    }
}

/// A piece ending before the end of the search is followed by a piece that
/// starts on a valid date after it and no later than `end`.
pub proof fn law_next_start_after(current: CalendarDate, end: CalendarDate)
    requires
        valid(current),
        valid(end),
        date_le(current, end),
        !(current == end && !is_valid_date(current.year + 1, current.month as int, current.day as int)),
        spec_chunk_end(current, end) != end,
    ensures
        valid(spec_succ(spec_chunk_end(current, end))),
        date_le(spec_succ(spec_chunk_end(current, end)), end),
        date_le(current, spec_succ(spec_chunk_end(current, end))),
        spec_succ(spec_chunk_end(current, end)) != current,
{
    law_chunks_tile(current, end);
    let ce = spec_chunk_end(current, end);
    assert(ce != last_date());
    lemma_succ_is_next(ce, end);
}

/// The day after a valid date other than the last is a valid later date.
proof fn lemma_succ_later(d: CalendarDate)
    requires
        valid(d),
    ensures
        date_le(d, spec_succ(d)),
        spec_succ(d) != d,
        d != last_date() ==> valid(spec_succ(d)),
        spec_succ(d).year <= d.year + 1,
        1 <= spec_succ(d).month <= 12,
        1 <= spec_succ(d).day <= 31,
{
}

/// Where the piece after pieces `v` of a search from `start` starts.
pub open spec fn next_start(v: Seq<(CalendarDate, CalendarDate)>, start: CalendarDate) -> CalendarDate {
    if v.len() == 0 { start } else { spec_succ(v.last().1) }
}

/// `v` are the first pieces of the search from `start` to `end`: the first
/// starts on `start`, each other the day after the one before it ends, and
/// each ends as `spec_chunk_end` says.
pub open spec fn is_chain(v: Seq<(CalendarDate, CalendarDate)>, start: CalendarDate, end: CalendarDate) -> bool {
    forall|i: int| 0 <= i < v.len() ==> {
        &&& (#[trigger] v[i]).0 == (if i == 0 { start } else { spec_succ(v[i - 1].1) })
        &&& v[i].1 == spec_chunk_end(v[i].0, end)
    }
}

/// A piece starting on `d` cannot advance: `d` is the last day of the
/// search and has no anniversary a year on.
pub open spec fn stalls(d: CalendarDate, end: CalendarDate) -> bool {
    d == end && !is_valid_date(d.year + 1, d.month as int, d.day as int)
}

/// Why a search period cannot be split into yearly pieces.
#[derive(Debug, Clone, Copy, PartialEq, Eq, Structural)]
pub enum PeriodError {
    /// The period ends on the last supported date, after which no day follows.
    EndsOnLastDate,
    /// A piece would start on this day and could not advance.
    Stalled(CalendarDate),
}

/// The yearly pieces a catalogue search from `start` to `end` is requested
/// in, in order: none for an empty period; otherwise pieces that run, day
/// after day, from `start` to `end`.
pub fn plan_chunks(start: CalendarDate, end: CalendarDate) -> (r: Result<Vec<(CalendarDate, CalendarDate)>, PeriodError>)
    requires
        valid(start),
        valid(end),
    ensures
        (r == Err::<Vec<(CalendarDate, CalendarDate)>, PeriodError>(PeriodError::EndsOnLastDate)) <==> end == last_date(),
        r matches Ok(v) ==> {
            &&& is_chain(v@, start, end)
            &&& !date_le(next_start(v@, start), end)
            &&& (v@.len() == 0 <==> !date_le(start, end))
            &&& v@.len() > 0 ==> v@.last().1 == end
            &&& forall|i: int| 0 <= i < v@.len() ==> date_le((#[trigger] v@[i]).0, v@[i].1) && date_le(v@[i].1, end)
        },
        r matches Err(PeriodError::Stalled(d)) ==> stalls(d, end)
            && exists|v: Seq<(CalendarDate, CalendarDate)>| is_chain(v, start, end) && #[trigger] next_start(v, start) == d,
{
    if end.year == 262142 && end.month == 12 && end.day == 31 {
        return Err(PeriodError::EndsOnLastDate);
    }
    let mut v: Vec<(CalendarDate, CalendarDate)> = Vec::new();
    if !is_on_or_before(start, end) {
        return Ok(v);
    }
    let mut current = start;
    while is_on_or_before(current, end)
        invariant
            valid(start),
            valid(end),
            end != last_date(),
            date_le(start, end),
            current.year <= end.year + 1,
            1 <= current.month <= 12,
            1 <= current.day <= 31,
            date_le(current, end) ==> valid(current),
            is_chain(v@, start, end),
            next_start(v@, start) == current,
            v@.len() == 0 ==> current == start,
            v@.len() > 0 ==> (v@.last().1 == end || date_le(current, end)),
            forall|i: int| 0 <= i < v@.len() ==> date_le((#[trigger] v@[i]).0, v@[i].1) && date_le(v@[i].1, end),
        decreases end.year + 1 - current.year, 13 - current.month, 32 - current.day,
    {
        if current.year == end.year && current.month == end.month && current.day == end.day
            && !date_exists(current.year + 1, current.month, current.day) {
            assert(is_chain(v@, start, end) && next_start(v@, start) == current);
            return Err(PeriodError::Stalled(current));
        }
        proof { law_chunks_tile(current, end); }
        let (ce, next) = next_chunk(current, end);
        proof {
            lemma_chain_push(v@, start, end, current, ce);
            lemma_succ_later(ce);
            if ce != end {
                law_next_start_after(current, end);
            }
        }
        v.push((current, ce));
        current = next;
    }
    Ok(v)
}

/// A chain of pieces stays one when the piece that starts where it leaves
/// off is added.
proof fn lemma_chain_push(v: Seq<(CalendarDate, CalendarDate)>, start: CalendarDate, end: CalendarDate,
    current: CalendarDate, ce: CalendarDate)
    requires
        is_chain(v, start, end),
        next_start(v, start) == current,
        ce == spec_chunk_end(current, end),
    ensures
        is_chain(v.push((current, ce)), start, end),
        next_start(v.push((current, ce)), start) == spec_succ(ce),
{
    let w = v.push((current, ce));
    assert forall|i: int| 0 <= i < w.len() implies {
        &&& (#[trigger] w[i]).0 == (if i == 0 { start } else { spec_succ(w[i - 1].1) })
        &&& w[i].1 == spec_chunk_end(w[i].0, end)
    } by {
        if i < v.len() {
            assert(w[i] == v[i]);
            if i > 0 { assert(w[i - 1] == v[i - 1]); }
        } else {
            if i > 0 { assert(w[i - 1] == v[i - 1]); }
        }
    }
}

/// A time of day, to the second.
#[derive(Debug, Clone, Copy, PartialEq, Eq, Structural)]
pub struct ClockTime {
    pub hour: u32,
    pub minute: u32,
    pub second: u32,
}

/// A time that exists on every day (no leap second).
pub open spec fn clock_valid(t: ClockTime) -> bool {
    t.hour < 24 && t.minute < 60 && t.second < 60
}

/// The decimal digit `n`.
pub open spec fn digit_char(n: int) -> char {
    (48 + n) as char
}

/// The decimal digits of `n`, without leading zeros.
pub open spec fn decimal(n: nat) -> Seq<char>
    decreases n,
{
    if n < 10 { seq![digit_char(n as int)] } else { decimal(n / 10).push(digit_char((n % 10) as int)) }
}

/// `s` with zeros put in front up to width `w`.
pub open spec fn zero_pad(s: Seq<char>, w: nat) -> Seq<char> {
    if s.len() >= w { s } else { Seq::new((w - s.len()) as nat, |i: int| '0') + s }
}

/// A year as `%Y` writes it: four digits, zero-padded, with a sign outside
/// the years 0 to 9999.
#[verifier::opaque]
pub open spec fn year_text(y: int) -> Seq<char> {
    if 0 <= y <= 9999 {
        zero_pad(decimal(y as nat), 4)
    } else if y < 0 {
        seq!['-'] + zero_pad(decimal((-y) as nat), 4)
    } else {
        seq!['+'] + zero_pad(decimal(y as nat), 4)
    }
}

/// A number below 100 as two digits.
#[verifier::opaque]
pub open spec fn two_digits(n: int) -> Seq<char> {
    zero_pad(decimal(n as nat), 2)
}

/// A pattern whose only specifiers are `%Y`, `%m`, `%d`, `%H`, `%M` and
/// `%S`; every other character stands for itself.
pub open spec fn simple_pattern(p: Seq<char>) -> bool {
    forall|i: int| 0 <= i < p.len() && #[trigger] p[i] == '%' ==>
        i + 1 < p.len() && (p[i + 1] == 'Y' || p[i + 1] == 'm' || p[i + 1] == 'd' || p[i + 1] == 'H' || p[i + 1] == 'M' || p[i + 1] == 'S')
}

/// The text of a date and time written by a simple pattern.
pub open spec fn render_pattern(p: Seq<char>, d: CalendarDate, t: ClockTime) -> Seq<char>
    decreases p.len(),
{
    if p.len() == 0 {
        seq![]
    } else if p[0] == '%' && p.len() >= 2 {
        let f = p[1];
        let field = if f == 'Y' {
            year_text(d.year as int)
        } else if f == 'm' {
            two_digits(d.month as int)
        } else if f == 'd' {
            two_digits(d.day as int)
        } else if f == 'H' {
            two_digits(t.hour as int)
        } else if f == 'M' {
            two_digits(t.minute as int)
        } else {
            two_digits(t.second as int)
        };
        field + render_pattern(p.subrange(2, p.len() as int), d, t)
    } else {
        seq![p[0]] + render_pattern(p.drop_first(), d, t)
    }
}

/// Calls `NaiveDateTime::format` and `to_string` on the date and time;
/// claims chrono's documented rendering of the zero-padded specifiers `%Y`,
/// `%m`, `%d`, `%H`, `%M`, `%S` and of literal characters.
#[verifier::external_body]
pub(crate) fn format_moment(d: CalendarDate, t: ClockTime, pattern: &str) -> (r: String)
    requires
        valid(d),
        clock_valid(t),
        simple_pattern(pattern@),
    ensures
        r@ == render_pattern(pattern@, d, t),
{
    let nd = chrono::NaiveDate::from_ymd_opt(d.year, d.month, d.day).unwrap();
    let nt = chrono::NaiveTime::from_hms_opt(t.hour, t.minute, t.second).unwrap();
    chrono::NaiveDateTime::new(nd, nt).format(pattern).to_string()
}

/// A date and time to the second.
#[derive(Debug, Clone, Copy, PartialEq, Eq, Structural)]
pub struct Moment {
    pub date: CalendarDate,
    pub time: ClockTime,
}

/// A moment whose date and time exist.
pub open spec fn moment_valid(m: Moment) -> bool {
    valid(m.date) && clock_valid(m.time)
}

/// `YYYY-MM-DDTHH:MM:SS`, the form FDSN services take times in.
pub open spec fn iso_text(m: Moment) -> Seq<char> {
    year_text(m.date.year as int) + seq!['-'] + two_digits(m.date.month as int) + seq!['-'] + two_digits(m.date.day as int)
        + seq!['T'] + two_digits(m.time.hour as int) + seq![':'] + two_digits(m.time.minute as int) + seq![':'] + two_digits(m.time.second as int)
}

/// The pattern `%Y-%m-%dT%H:%M:%S`.
pub open spec fn iso_pattern() -> Seq<char> {
    seq!['%', 'Y', '-', '%', 'm', '-', '%', 'd', 'T', '%', 'H', ':', '%', 'M', ':', '%', 'S']
}

proof fn lemma_iso_pattern(d: CalendarDate, t: ClockTime)
    ensures
        simple_pattern(iso_pattern()),
        render_pattern(iso_pattern(), d, t) == iso_text(Moment { date: d, time: t }),
{
    let p = iso_pattern();
    assert forall|i: int| 0 <= i < p.len() && #[trigger] p[i] == '%' implies
        i + 1 < p.len() && (p[i + 1] == 'Y' || p[i + 1] == 'm' || p[i + 1] == 'd' || p[i + 1] == 'H' || p[i + 1] == 'M' || p[i + 1] == 'S') by {
        assert(i == 0 || i == 3 || i == 6 || i == 9 || i == 12 || i == 15);
    }
    let s15 = p.subrange(15, 17);
    assert(s15.subrange(2, 2) =~= Seq::<char>::empty());
    assert(render_pattern(Seq::<char>::empty(), d, t) =~= Seq::<char>::empty());
    assert(render_pattern(s15, d, t) =~= two_digits(t.second as int));
    let s14 = p.subrange(14, 17);
    assert(s14.drop_first() =~= s15);
    assert(render_pattern(s14, d, t) =~= seq![':'] + render_pattern(s15, d, t));
    let s12 = p.subrange(12, 17);
    assert(s12.subrange(2, 5) =~= s14);
    assert(render_pattern(s12, d, t) =~= two_digits(t.minute as int) + render_pattern(s14, d, t));
    let s11 = p.subrange(11, 17);
    assert(s11.drop_first() =~= s12);
    assert(render_pattern(s11, d, t) =~= seq![':'] + render_pattern(s12, d, t));
    let s9 = p.subrange(9, 17);
    assert(s9.subrange(2, 8) =~= s11);
    assert(render_pattern(s9, d, t) =~= two_digits(t.hour as int) + render_pattern(s11, d, t));
    let s8 = p.subrange(8, 17);
    assert(s8.drop_first() =~= s9);
    assert(render_pattern(s8, d, t) =~= seq!['T'] + render_pattern(s9, d, t));
    let s6 = p.subrange(6, 17);
    assert(s6.subrange(2, 11) =~= s8);
    assert(render_pattern(s6, d, t) =~= two_digits(d.day as int) + render_pattern(s8, d, t));
    let s5 = p.subrange(5, 17);
    assert(s5.drop_first() =~= s6);
    assert(render_pattern(s5, d, t) =~= seq!['-'] + render_pattern(s6, d, t));
    let s3 = p.subrange(3, 17);
    assert(s3.subrange(2, 14) =~= s5);
    assert(render_pattern(s3, d, t) =~= two_digits(d.month as int) + render_pattern(s5, d, t));
    let s2 = p.subrange(2, 17);
    assert(s2.drop_first() =~= s3);
    assert(render_pattern(s2, d, t) =~= seq!['-'] + render_pattern(s3, d, t));
    assert(render_pattern(p, d, t) =~= year_text(d.year as int) + render_pattern(s2, d, t));
    assert(render_pattern(p, d, t) =~= iso_text(Moment { date: d, time: t }));
}

/// Write a moment as `YYYY-MM-DDTHH:MM:SS`.
pub fn iso_timestamp(m: Moment) -> (r: String)
    requires
        moment_valid(m),
    ensures
        r@ == iso_text(m),
{
    let pattern = "%Y-%m-%dT%H:%M:%S";
    proof {
        reveal_strlit("%Y-%m-%dT%H:%M:%S");
        assert(pattern@ =~= iso_pattern());
        lemma_iso_pattern(m.date, m.time);
    }
    format_moment(m.date, m.time, pattern)
}

/// `YYYY-MM-DD`.
pub open spec fn ymd_text(d: CalendarDate) -> Seq<char> {
    year_text(d.year as int) + seq!['-'] + two_digits(d.month as int) + seq!['-'] + two_digits(d.day as int)
}

/// Write a date as `YYYY-MM-DD`.
pub fn date_text(d: CalendarDate) -> (r: String)
    requires
        valid(d),
    ensures
        r@ == ymd_text(d),
{
    let pattern = "%Y-%m-%d";
    let midnight = ClockTime { hour: 0, minute: 0, second: 0 };
    proof {
        reveal_strlit("%Y-%m-%d");
        let p = pattern@;
        let t = midnight;
        assert(p.len() == 8);
        let s6 = p.subrange(6, 8);
        assert(s6.subrange(2, 2) =~= Seq::<char>::empty());
        assert(render_pattern(Seq::<char>::empty(), d, t) =~= Seq::<char>::empty());
        assert(render_pattern(s6, d, t) =~= two_digits(d.day as int));
        let s5 = p.subrange(5, 8);
        assert(s5.drop_first() =~= s6);
        assert(render_pattern(s5, d, t) =~= seq!['-'] + render_pattern(s6, d, t));
        let s3 = p.subrange(3, 8);
        assert(s3.subrange(2, 5) =~= s5);
        assert(render_pattern(s3, d, t) =~= two_digits(d.month as int) + render_pattern(s5, d, t));
        let s2 = p.subrange(2, 8);
        assert(s2.drop_first() =~= s3);
        assert(render_pattern(s2, d, t) =~= seq!['-'] + render_pattern(s3, d, t));
        assert(render_pattern(p, d, t) =~= year_text(d.year as int) + render_pattern(s2, d, t));
        assert(render_pattern(p, d, t) =~= ymd_text(d));
    }
    format_moment(d, midnight, pattern)
}

/// The number of days from 1 March of year 0 to a date of the proleptic
/// Gregorian calendar.
pub open spec fn day_number(y: int, m: int, d: int) -> int {
    let yy = if m <= 2 { y - 1 } else { y };
    let mm = if m <= 2 { m + 9 } else { m - 3 };
    365 * yy + yy / 4 - yy / 100 + yy / 400 + (153 * mm + 2) / 5 + d - 1
}

/// The number of seconds from midnight of 1 March of year 0 to a moment.
pub open spec fn moment_seconds(m: Moment) -> int {
    day_number(m.date.year as int, m.date.month as int, m.date.day as int) * 86400
        + m.time.hour * 3600 + m.time.minute * 60 + m.time.second
}

/// Calls `TimeDelta::try_seconds` and `NaiveDateTime::checked_add_signed`;
/// claims that the result lies `secs` seconds after `m` on the calendar
/// without leap seconds, and that there is none exactly when no supported
/// moment lies there.
#[verifier::external_body]
fn add_seconds(m: Moment, secs: i64) -> (r: Option<Moment>)
    requires
        moment_valid(m),
    ensures
        r matches Some(n) ==> moment_valid(n) && moment_seconds(n) == moment_seconds(m) + secs,
        r is None ==> forall|n: Moment| moment_valid(n) ==> #[trigger] moment_seconds(n) != moment_seconds(m) + secs,
{
    let nd = chrono::NaiveDate::from_ymd_opt(m.date.year, m.date.month, m.date.day).unwrap();
    let nt = chrono::NaiveTime::from_hms_opt(m.time.hour, m.time.minute, m.time.second).unwrap();
    let shifted = match chrono::TimeDelta::try_seconds(secs) {
        Some(delta) => chrono::NaiveDateTime::new(nd, nt).checked_add_signed(delta),
        None => None,
    };
    match shifted {
        Some(t) => Some(Moment {
            date: CalendarDate { year: t.year(), month: t.month(), day: t.day() },
            time: ClockTime { hour: t.hour(), minute: t.minute(), second: t.second() },
        }),
        None => None,
    }
}

/// The period of a waveform request around an origin time: from
/// `start_offset` to `end_offset` seconds after it; `None` when either end
/// falls outside the supported calendar.
pub fn time_window(origin: Moment, start_offset: i64, end_offset: i64) -> (r: Option<(Moment, Moment)>)
    requires
        moment_valid(origin),
    ensures
        r matches Some((a, b)) ==> {
            &&& moment_valid(a) && moment_seconds(a) == moment_seconds(origin) + start_offset
            &&& moment_valid(b) && moment_seconds(b) == moment_seconds(origin) + end_offset
        },
        r is None ==> (forall|n: Moment| moment_valid(n) ==> #[trigger] moment_seconds(n) != moment_seconds(origin) + start_offset)
            || (forall|n: Moment| moment_valid(n) ==> #[trigger] moment_seconds(n) != moment_seconds(origin) + end_offset),
{
    match add_seconds(origin, start_offset) {
        Some(a) => match add_seconds(origin, end_offset) {
            Some(b) => Some((a, b)),
            None => None,
        },
        None => None,
    }
}

/// The message given for date or time text that does not parse.
pub open spec fn bad_date_time_message() -> Seq<char> {
    "Invalid date/time format"@
}

/// The date that `NaiveDate::parse_from_str` reads from `text` with the
/// format `%Y-%m-%d`, if it reads one.
pub uninterp spec fn spec_parse_date(text: Seq<char>) -> Option<CalendarDate>;

/// The time of day that `NaiveTime::parse_from_str` reads from `text` with
/// the format `%H:%M:%S`, if it reads one.
pub uninterp spec fn spec_parse_time(text: Seq<char>) -> Option<ClockTime>;

/// The date and time that `NaiveDateTime::parse_from_str` reads from
/// `text` with the format `%Y-%m-%dT%H:%M:%S`, if it reads one.
pub uninterp spec fn spec_parse_origin(text: Seq<char>) -> Option<Moment>;

/// Calls `NaiveDate::parse_from_str` with `%Y-%m-%d`; its result is named
/// `spec_parse_date`, and a date it gives is one chrono holds.
#[verifier::external_body]
fn parse_date_text(text: &str) -> (r: Option<CalendarDate>)
    ensures
        r == spec_parse_date(text@),
        r matches Some(d) ==> valid(d),
{
    chrono::NaiveDate::parse_from_str(text, "%Y-%m-%d").ok()
        .map(|d| CalendarDate { year: d.year(), month: d.month(), day: d.day() })
}

/// Calls `NaiveTime::parse_from_str` with `%H:%M:%S`; its result is named
/// `spec_parse_time`. A time it gives reads as hour, minute and second,
/// each in range (a leap second reads as second 59).
#[verifier::external_body]
fn parse_time_text(text: &str) -> (r: Option<ClockTime>)
    ensures
        r == spec_parse_time(text@),
        r matches Some(t) ==> clock_valid(t),
{
    chrono::NaiveTime::parse_from_str(text, "%H:%M:%S").ok()
        .map(|t| ClockTime { hour: t.hour(), minute: t.minute(), second: t.second() })
}

/// Calls `NaiveDateTime::parse_from_str` with `%Y-%m-%dT%H:%M:%S`; its
/// result is named `spec_parse_origin`, and a moment it gives is valid.
#[verifier::external_body]
fn parse_origin_text(text: &str) -> (r: Option<Moment>)
    ensures
        r == spec_parse_origin(text@),
        r matches Some(m) ==> moment_valid(m),
{
    chrono::NaiveDateTime::parse_from_str(text, "%Y-%m-%dT%H:%M:%S").ok().map(|dt| Moment {
        date: CalendarDate { year: dt.year(), month: dt.month(), day: dt.day() },
        time: ClockTime { hour: dt.hour(), minute: dt.minute(), second: dt.second() },
    })
}

fn bad_date_time() -> (r: String)
    ensures
        r@ == bad_date_time_message(),
{
    proof { reveal_strlit("Invalid date/time format"); }
    String::from_str("Invalid date/time format")
}

/// Reads a date typed as `YYYY-MM-DD`; the error is the message for text
/// that does not parse.
pub fn parse_calendar_date(text: &str) -> (r: Result<CalendarDate, String>)
    ensures
        r is Ok <==> spec_parse_date(text@) is Some,
        r matches Ok(d) ==> spec_parse_date(text@) == Some(d) && valid(d),
        r matches Err(e) ==> e@ == bad_date_time_message(),
{
    match parse_date_text(text) {
        Some(d) => Ok(d),
        None => Err(bad_date_time()),
    }
}

/// Reads a time of day typed as `HH:MM:SS`; the error is the message for
/// text that does not parse.
pub fn parse_clock_time(text: &str) -> (r: Result<ClockTime, String>)
    ensures
        r is Ok <==> spec_parse_time(text@) is Some,
        r matches Ok(t) ==> spec_parse_time(text@) == Some(t) && clock_valid(t),
        r matches Err(e) ==> e@ == bad_date_time_message(),
{
    match parse_time_text(text) {
        Some(t) => Ok(t),
        None => Err(bad_date_time()),
    }
}

/// Reads an origin time typed as `YYYY-MM-DDTHH:MM:SS`; the error is the
/// message for text that does not parse.
pub fn parse_origin(text: &str) -> (r: Result<Moment, String>)
    ensures
        r is Ok <==> spec_parse_origin(text@) is Some,
        r matches Ok(m) ==> spec_parse_origin(text@) == Some(m) && moment_valid(m),
        r matches Err(e) ==> e@ == bad_date_time_message(),
{
    match parse_origin_text(text) {
        Some(m) => Ok(m),
        None => Err(bad_date_time()),
    }
}

} // verus!
