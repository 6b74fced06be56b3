//! The time table of spots and its schedules, and the times a schedule
//! plays a spot on a given day.
pub mod custom_serde;

use vstd::prelude::*;
use crate::text::{chars_of, parse_i64, spec_parse_i64};
use crate::weekday::Weekday;

verus! {

/// A date and a time of day on the local wall clock, to the second.
#[derive(Debug, Clone, Copy, PartialEq, Eq, Structural)]
pub struct CivilDateTime {
    pub year: i32,
    pub month: u32,
    pub day: u32,
    pub hour: u32,
    pub minute: u32,
    pub second: u32,
}

/// A moment on the local wall clock together with its day of the week.
#[derive(Debug, Clone, Copy, PartialEq, Eq, Structural)]
pub struct LocalTime {
    pub at: CivilDateTime,
    pub weekday: Weekday,
}

impl CivilDateTime {
    /// Every field within its range.
    pub open spec fn wf(self) -> bool {
        &&& 1 <= self.month <= 12
        &&& 1 <= self.day <= 31
        &&& self.hour < 24
        &&& self.minute < 60
        &&& self.second < 60
    }

    /// A number that orders well-formed values as time runs: year, then month,
    /// day, hour, minute and second.
    pub open spec fn instant(self) -> int {
        ((((self.year as int * 13 + self.month) * 32 + self.day) * 24 + self.hour) * 60 + self.minute)
            * 60 + self.second
    }

    /// The second of the day.
    pub open spec fn second_of_day(self) -> int {
        (self.hour * 60 + self.minute) * 60 + self.second
    }

    /// [`Self::instant`], computed.
    pub fn instant_key(&self) -> (k: i64)
        requires
            self.wf(),
        ensures
            k == self.instant(),
    {
        let y = self.year as i64;
        assert(-0x8000_0000 <= y < 0x8000_0000);
        assert(-0x8000_0000 * 13 * 32 * 24 * 60 * 60 - 0x1_0000_0000 <= y * 13 * 32 * 24 * 60 * 60
            <= 0x8000_0000 * 13 * 32 * 24 * 60 * 60) by (nonlinear_arith)
            requires
                -0x8000_0000 <= y < 0x8000_0000,
        ;
        assert(self.instant() == y * 13 * 32 * 24 * 60 * 60 + ((((self.month as int) * 32
            + self.day) * 24 + self.hour) * 60 + self.minute) * 60 + self.second) by (nonlinear_arith)
            requires
                y == self.year as int,
        ;
        let rest: i64 = (((((self.month as i64) * 32 + self.day as i64) * 24 + self.hour as i64) * 60
            + self.minute as i64) * 60 + self.second as i64);
        y * 13 * 32 * 24 * 60 * 60 + rest
    }
}

/// One entry of the time table: a spot, the span of days in which it may
/// run, and the schedules that say when.
pub struct Spot {
    pub uri: String,
    pub start: CivilDateTime,
    pub end: CivilDateTime,
    pub schedules: Vec<Schedule>,
}

/// The whole time table.
pub struct TimeTable {
    pub spots: Vec<Spot>,
}

/// When a spot runs: on the listed weekdays, from `start` (or midnight) up to
/// `end`, every `interval` (a number followed by `m` for minutes or `h` for
/// hours; empty or zero for once).
pub struct Schedule {
    pub start: Option<(u16, u16)>,
    pub end: Option<(u16, u16)>,
    pub weekdays: Vec<Weekday>,
    pub interval: String,
}

/// The largest number of seconds a `chrono` duration holds, either way.
pub const MAX_DURATION_SECONDS: i64 = 9_223_372_036_854_775;

/// The unit of an interval text: its last character, `h` when it is empty.
pub open spec fn interval_unit(s: Seq<char>) -> char {
    if s.len() == 0 {
        'h'
    } else {
        s.last()
    }
}

/// The number of an interval text: what precedes the unit, read as an `i64`,
/// zero when that fails.
pub open spec fn interval_amount(s: Seq<char>) -> int {
    if s.len() == 0 {
        0
    } else {
        match spec_parse_i64(s.drop_last()) {
            Some(v) => v,
            None => 0,
        }
    }
}

/// The length of one step in minutes.
pub open spec fn step_minutes(unit: char, amount: int) -> int {
    if unit == 'm' {
        amount
    } else {
        amount * 60
    }
}

/// Whether a step of that unit and number can be made: the unit is minutes
/// or hours and the duration fits in `chrono`'s range.
pub open spec fn step_possible(unit: char, amount: int) -> bool {
    if unit == 'm' {
        -MAX_DURATION_SECONDS <= amount * 60 <= MAX_DURATION_SECONDS
    } else if unit == 'h' {
        -MAX_DURATION_SECONDS <= amount * 3600 <= MAX_DURATION_SECONDS
    } else {
        false
    }
}

/// Whether the minute `t` of the day still gets a run: it lies on the same
/// day, and not after the end point, the minute of the day `end_minute`.
pub open spec fn in_window(t: int, end_minute: int) -> bool {
    &&& 0 <= t < 1440
    &&& t <= end_minute
}

pub open spec fn window_measure(t: int, step: int) -> nat {
    if step > 0 {
        if t < 1440 {
            (1440 - t) as nat
        } else {
            0
        }
    } else if t >= 0 {
        (t + 1) as nat
    } else {
        0
    }
}

/// The minutes of the day from `t` on, every `step` minutes, while they are in the window.
pub open spec fn window_minutes(t: int, step: int, end_minute: int) -> Seq<int>
    decreases window_measure(t, step),
{
    if step != 0 && in_window(t, end_minute) {
        seq![t] + window_minutes(t + step, step, end_minute)
    } else {
        Seq::empty()
    }
}

/// The moment on the day of `for_date` at minute `t` of the day.
pub open spec fn at_minute(for_date: LocalTime, t: int) -> LocalTime {
    LocalTime {
        at: CivilDateTime {
            hour: (t / 60) as u32,
            minute: (t % 60) as u32,
            second: 0,
            ..for_date.at
        },
        ..for_date
    }
}

impl Schedule {
    /// The minute of the day at which the runs start.
    pub open spec fn start_minute(self) -> int {
        match self.start {
            Some(s) => s.0 * 60 + s.1,
            None => 0,
        }
    }

    /// The minute of the day of the end point, included: 23:59 when none is set.
    pub open spec fn end_minute(self) -> int {
        match self.end {
            Some(e) => e.0 * 60 + e.1,
            None => 23 * 60 + 59int,
        }
    }

    /// Whether generating the runs can go ahead: the start is a time of day,
    /// and a step is taken only when it can be made.
    pub open spec fn can_generate(self) -> bool {
        let unit = interval_unit(self.interval@);
        let amount = interval_amount(self.interval@);
        &&& (self.start matches Some(s) ==> s.0 < 24 && s.1 < 60)
        &&& (amount != 0 && in_window(self.start_minute(), self.end_minute()) ==> step_possible(
            unit,
            amount,
        ))
    }

    /// The runs on the day of `for_date`: with no interval, once at the start;
    /// otherwise at the start and every interval after it while still in the
    /// window, keeping only those not before `for_date`.
    pub open spec fn spec_generate_intervals(self, for_date: LocalTime) -> Seq<LocalTime> {
        let amount = interval_amount(self.interval@);
        let unit = interval_unit(self.interval@);
        if amount == 0 {
            seq![at_minute(for_date, self.start_minute())]
        } else {
            window_minutes(self.start_minute(), step_minutes(unit, amount), self.end_minute()).filter(
                |t: int| t * 60 >= for_date.at.second_of_day(),
            ).map_values(|t: int| at_minute(for_date, t))
        }
    }

    /// Whether the schedule applies at `for_date`: its weekdays hold that day,
    /// and, where start and end are both set, `for_date` is before the end.
    pub open spec fn spec_is_valid(self, for_date: LocalTime) -> bool {
        &&& self.weekdays@.contains(for_date.weekday)
        &&& !(self.start is Some && (self.end matches Some(end) && (for_date.at.hour > end.0 || (
        for_date.at.hour == end.0 && for_date.at.minute >= end.1))))
    }

    /// Whether the schedule applies at `for_date`; see [`Self::spec_is_valid`].
    pub fn is_valid(&self, for_date: &LocalTime) -> (r: bool)
        requires
            for_date.at.wf(),
        ensures
            r == self.spec_is_valid(*for_date),
    {
        let current_weekday = for_date.weekday;
        let current_hour = for_date.at.hour as u16;
        let current_minute = for_date.at.minute as u16;
        let mut contains = false;
        let mut i: usize = 0;
        while i < self.weekdays.len()
            invariant
                i <= self.weekdays@.len(),
                contains == exists|k: int| 0 <= k < i && self.weekdays@[k] == current_weekday,
            decreases self.weekdays@.len() - i,
        {
            if self.weekdays[i] == current_weekday {
                contains = true;
            }
            i = i + 1;
        }
        if contains {
            if self.start.is_some() {
                if let Some(end) = self.end {
                    if current_hour > end.0 || (current_hour == end.0 && current_minute >= end.1) {
                        return false;
                    }
                }
            }
            return true;
        }
        false
    }

    /// The runs on the day of `for_date`, see [`Self::spec_generate_intervals`];
    /// none when that day has none.
    ///
    /// Times are wall-clock minutes of the day: a step of the interval adds
    /// minutes to the clock reading. On a day on which the local time zone
    /// changes its offset (daylight saving), runs that cross the change stand
    /// at other instants than steps added to the instant of the start, and a
    /// local time that the change skips is kept as it reads.
    pub fn generate_intervals(&self, for_date: &LocalTime) -> (r: Option<Vec<LocalTime>>)
        requires
            for_date.at.wf(),
            self.can_generate(),
        ensures
            self.spec_generate_intervals(*for_date).len() == 0 ==> r is None,
            self.spec_generate_intervals(*for_date).len() > 0 ==> (r matches Some(v) && v@
                == self.spec_generate_intervals(*for_date)),
    {
        let start_point: (u16, u16) = match self.start {
            Some(s) => s,
            None => (0, 0),
        };
        let end_minute: i64 = match self.end {
            Some(e) => e.0 as i64 * 60 + e.1 as i64,
            None => 23 * 60 + 59,
        };
        let mut generated_intervals: Vec<LocalTime> = Vec::new();
        let chars = chars_of(self.interval.as_str());
        let unit: char = if chars.len() == 0 {
            'h'
        } else {
            chars[chars.len() - 1]
        };
        let amount: i64 = if chars.len() == 0 {
            0
        } else {
            let mut digits = chars.clone();
            digits.pop();
            assert(digits@ =~= chars@.drop_last());
            match parse_i64(&digits) {
                Some(v) => v,
                None => 0,
            }
        };
        let start_minute: i64 = start_point.0 as i64 * 60 + start_point.1 as i64;
        assert(start_minute == self.start_minute());
        if amount == 0 {
            generated_intervals.push(at_minute_exec(for_date, start_minute));
            assert(generated_intervals@ =~= self.spec_generate_intervals(*for_date));
            return Some(generated_intervals);
        }
        let ghost all = window_minutes(start_minute as int, step_minutes(unit, amount as int), end_minute as int);
        let for_second: i64 = (for_date.at.hour as i64 * 60 + for_date.at.minute as i64) * 60
            + for_date.at.second as i64;
        let mut now: i64 = start_minute;
        if !in_window_exec(now, end_minute) {
            assert(all =~= Seq::<int>::empty());
            assert(generated_intervals@ =~= self.spec_generate_intervals(*for_date)) by {
                reveal(Seq::filter);
            }
            return None;
        }
        assert(step_possible(unit, amount as int));
        let step: i64 = if unit == 'm' {
            amount
        } else {
            amount * 60
        };
        let ghost mut seen: Seq<int> = Seq::empty();
        while in_window_exec(now, end_minute)
            invariant
                -MAX_DURATION_SECONDS <= step * 60 <= MAX_DURATION_SECONDS,
                step != 0,
                step == step_minutes(unit, amount as int),
                all == seen + window_minutes(now as int, step as int, end_minute as int),
                -1440 - MAX_DURATION_SECONDS <= now <= 1440 + MAX_DURATION_SECONDS,
                for_second == for_date.at.second_of_day(),
                generated_intervals@ == seen.filter(|t: int| t * 60 >= for_date.at.second_of_day()).map_values(|t: int| at_minute(*for_date, t)),
            decreases window_measure(now as int, step as int),
        {
            let ghost before = seen;
            if now * 60 >= for_second {
                generated_intervals.push(at_minute_exec(for_date, now));
            }
            proof {
                reveal(Seq::filter);
                seen = seen.push(now as int);
                assert(seen.drop_last() =~= before);
                assert(all == seen + window_minutes(now + step, step as int, end_minute as int)) by {
                    assert(window_minutes(now as int, step as int, end_minute as int) == seq![now as int]
                        + window_minutes(now + step, step as int, end_minute as int));
                    assert(before + (seq![now as int] + window_minutes(now + step, step as int, end_minute as int))
                        =~= seen + window_minutes(now + step, step as int, end_minute as int));
                }
                before.lemma_filter_push(now as int, |t: int| t * 60 >= for_date.at.second_of_day());
                if now * 60 >= for_second {
                    assert(seen.filter(|t: int| t * 60 >= for_date.at.second_of_day()) == before.filter(|t: int| t * 60 >= for_date.at.second_of_day()).push(now as int));
                    assert(generated_intervals@ =~= seen.filter(|t: int| t * 60 >= for_date.at.second_of_day()).map_values(
                        |t: int| at_minute(*for_date, t),
                    ));
                } else {
                    assert(seen.filter(|t: int| t * 60 >= for_date.at.second_of_day()) == before.filter(|t: int| t * 60 >= for_date.at.second_of_day()));
                }
            }
            now = now + step;
        }
        proof {
            assert(window_minutes(now as int, step as int, end_minute as int) =~= Seq::<int>::empty());
            assert(all =~= seen);
        }
        if generated_intervals.len() == 0 {
            return None;
        }
        Some(generated_intervals)
    }
}

impl Schedule {
    /// Whether [`Self::generate_intervals`] can be called for this schedule;
    /// see [`Self::can_generate`].
    pub fn can_generate_intervals(&self) -> (r: bool)
        ensures
            r == self.can_generate(),
    {
        if let Some(s) = self.start {
            if s.0 >= 24 || s.1 >= 60 {
                return false;
            }
        }
        let chars = chars_of(self.interval.as_str());
        let unit: char = if chars.len() == 0 {
            'h'
        } else {
            chars[chars.len() - 1]
        };
        let amount: i64 = if chars.len() == 0 {
            0
        } else {
            let mut digits = chars.clone();
            digits.pop();
            assert(digits@ =~= chars@.drop_last());
            match parse_i64(&digits) {
                Some(v) => v,
                None => 0,
            }
        };
        let start_minute: i64 = match self.start {
            Some(s) => s.0 as i64 * 60 + s.1 as i64,
            None => 0,
        };
        let end_minute: i64 = match self.end {
            Some(e) => e.0 as i64 * 60 + e.1 as i64,
            None => 23 * 60 + 59,
        };
        if amount == 0 || !in_window_exec(start_minute, end_minute) {
            return true;
        }
        let limit: i128 = MAX_DURATION_SECONDS as i128;
        if unit == 'm' {
            let secs: i128 = amount as i128 * 60;
            -limit <= secs && secs <= limit
        } else if unit == 'h' {
            let secs: i128 = amount as i128 * 3600;
            -limit <= secs && secs <= limit
        } else {
            false
        }
    }
}

impl CivilDateTime {
    /// Whether every field is within its range; see [`Self::wf`].
    pub fn is_wf(&self) -> (r: bool)
        ensures
            r == self.wf(),
    {
        1 <= self.month && self.month <= 12 && 1 <= self.day && self.day <= 31 && self.hour < 24
            && self.minute < 60 && self.second < 60
    }
}

fn in_window_exec(t: i64, end_minute: i64) -> (r: bool)
    ensures
        r == in_window(t as int, end_minute as int),
{
    0 <= t && t < 1440 && t <= end_minute
}

fn at_minute_exec(for_date: &LocalTime, t: i64) -> (r: LocalTime)
    requires
        0 <= t < 1440,
    ensures
        r == at_minute(*for_date, t as int),
{
    LocalTime {
        at: CivilDateTime {
            year: for_date.at.year,
            month: for_date.at.month,
            day: for_date.at.day,
            hour: (t / 60) as u32,
            minute: (t % 60) as u32,
            second: 0,
        },
        weekday: for_date.weekday,
    }
}

impl Spot {
    /// Whether `for_date` lies within the spot's span, both ends included.
    pub open spec fn spec_is_valid(self, for_date: LocalTime) -> bool {
        self.start.instant() <= for_date.at.instant() && self.end.instant() >= for_date.at.instant()
    }

    /// Whether `for_date` lies within the spot's span, both ends included.
    pub fn is_valid(&self, for_date: &LocalTime) -> (r: bool)
        requires
            self.start.wf(),
            self.end.wf(),
            for_date.at.wf(),
        ensures
            r == self.spec_is_valid(*for_date),
    {
        let start = self.start.instant_key();
        let end = self.end.instant_key();
        let now = for_date.at.instant_key();
        if start <= now && end >= now {
            return true;
        }
        false
    }
}

/// A schedule applies on each of its weekdays until its end time, whatever
/// its start time: also at a moment before the start, so that runs planned
/// early in the day are kept. On any other weekday it does not apply, and with
/// a start set it no longer applies once its end time is reached; a schedule
/// with no start applies all day on its weekdays.
pub proof fn lemma_schedule_applies(s: Schedule, for_date: LocalTime)
    ensures
        (s.weekdays@.contains(for_date.weekday) && end_not_reached(s.end, for_date.at))
            ==> s.spec_is_valid(for_date),
        !s.weekdays@.contains(for_date.weekday) ==> !s.spec_is_valid(for_date),
        (s.start is Some && !end_not_reached(s.end, for_date.at)) ==> !s.spec_is_valid(for_date),
        (s.start is None) ==> (s.spec_is_valid(for_date) <==> s.weekdays@.contains(
            for_date.weekday,
        )),
{
}

/// Whether the clock reading `at` is before the end time `end`; an unset end
/// is never reached.
pub open spec fn end_not_reached(end: Option<(u16, u16)>, at: CivilDateTime) -> bool {
    match end {
        None => true,
        Some(e) => at.hour < e.0 || (at.hour == e.0 && at.minute < e.1),
    }
}

/// Whether `a` comes no later than `b` on the calendar: compared year first,
/// then month, day, hour, minute and second.
pub open spec fn calendar_le(a: CivilDateTime, b: CivilDateTime) -> bool {
    a.year < b.year || (a.year == b.year && (a.month < b.month || (a.month == b.month && (a.day
        < b.day || (a.day == b.day && (a.hour < b.hour || (a.hour == b.hour && (a.minute
        < b.minute || (a.minute == b.minute && a.second <= b.second)))))))))
}

proof fn lemma_radix(x1: int, x2: int, y1: int, y2: int, b: int)
    requires
        b > 0,
        0 <= x2 < b,
        0 <= y2 < b,
    ensures
        (x1 * b + x2 <= y1 * b + y2) <==> (x1 < y1 || (x1 == y1 && x2 <= y2)),
        (x1 * b + x2 == y1 * b + y2) <==> (x1 == y1 && x2 == y2),
{
    if x1 < y1 {
        assert(x1 * b + x2 < y1 * b + y2) by (nonlinear_arith)
            requires
                x1 < y1,
                b > 0,
                0 <= x2 < b,
                0 <= y2,
        ;
    } else if x1 > y1 {
        assert(x1 * b + x2 > y1 * b + y2) by (nonlinear_arith)
            requires
                x1 > y1,
                b > 0,
                0 <= y2 < b,
                0 <= x2,
        ;
    }
}

/// On well-formed times, [`CivilDateTime::instant`] orders as the calendar does.
pub proof fn lemma_instant_calendar(a: CivilDateTime, b: CivilDateTime)
    requires
        a.wf(),
        b.wf(),
    ensures
        (a.instant() <= b.instant()) <==> calendar_le(a, b),
{
    let a1 = a.year as int * 13 + a.month;
    let b1 = b.year as int * 13 + b.month;
    lemma_radix(a.year as int, a.month as int, b.year as int, b.month as int, 13);
    let a2 = a1 * 32 + a.day;
    let b2 = b1 * 32 + b.day;
    lemma_radix(a1, a.day as int, b1, b.day as int, 32);
    let a3 = a2 * 24 + a.hour;
    let b3 = b2 * 24 + b.hour;
    lemma_radix(a2, a.hour as int, b2, b.hour as int, 24);
    let a4 = a3 * 60 + a.minute;
    let b4 = b3 * 60 + b.minute;
    lemma_radix(a3, a.minute as int, b3, b.minute as int, 60);
    lemma_radix(a4, a.second as int, b4, b.second as int, 60);
    assert(a.instant() == a4 * 60 + a.second);
    assert(b.instant() == b4 * 60 + b.second);
}

/// A spot runs exactly at the moments from its start to its end on the
/// calendar, both included: not at a moment of its first day before its start
/// time, and not at one of its last day after its end time.
pub proof fn lemma_spot_span(spot: Spot, for_date: LocalTime)
    requires
        spot.start.wf(),
        spot.end.wf(),
        for_date.at.wf(),
    ensures
        spot.spec_is_valid(for_date) <==> (calendar_le(spot.start, for_date.at) && calendar_le(
            for_date.at,
            spot.end,
        )),
        (for_date.at.year == spot.start.year && for_date.at.month == spot.start.month
            && for_date.at.day == spot.start.day && for_date.at.hour < spot.start.hour)
            ==> !spot.spec_is_valid(for_date),
{
    lemma_instant_calendar(spot.start, for_date.at);
    lemma_instant_calendar(for_date.at, spot.end);
}

} // verus!
