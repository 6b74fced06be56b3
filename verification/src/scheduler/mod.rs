//! Spot scheduling: which spots run on a given day, and in what order.
pub mod parser;

use vstd::prelude::*;
use self::parser::{CivilDateTime, LocalTime, Schedule, TimeTable};

verus! {

broadcast use vstd::seq_lib::group_seq_properties;

/// The runs of one spot on a day.
pub struct Spot {
    pub uri: String,
    pub runs_at: Vec<LocalTime>,
}

/// The spots that run on a day, each with its runs, in the order of the time table.
pub struct SpotIntervals {
    pub spots: Vec<Spot>,
}

/// One run of one spot.
pub struct ScheduledSpot {
    pub uri: String,
    pub runs_at: LocalTime,
}

/// The runs that a list of schedules gives on the day of `for_date`: those of
/// each schedule that applies, one schedule after the other.
pub open spec fn schedule_runs(schedules: Seq<Schedule>, for_date: LocalTime) -> Seq<LocalTime>
    decreases schedules.len(),
{
    if schedules.len() == 0 {
        Seq::empty()
    } else {
        let last = schedules.last();
        schedule_runs(schedules.drop_last(), for_date) + if last.spec_is_valid(for_date) {
            last.spec_generate_intervals(for_date)
        } else {
            Seq::empty()
        }
    }
}

/// The spots of a time table that run on the day of `for_date`: each spot
/// whose span holds `for_date` and that gets at least one run, with its runs.
pub open spec fn spec_process(spots: Seq<parser::Spot>, for_date: LocalTime) -> Seq<
    (Seq<char>, Seq<LocalTime>),
>
    decreases spots.len(),
{
    if spots.len() == 0 {
        Seq::empty()
    } else {
        let spot = spots.last();
        let runs = schedule_runs(spot.schedules@, for_date);
        spec_process(spots.drop_last(), for_date) + if spot.spec_is_valid(for_date) && runs.len() > 0 {
            seq![(spot.uri@, runs)]
        } else {
            Seq::empty()
        }
    }
}

/// Whether every time in a time table is well formed, and every schedule
/// that applies at `for_date` (in a spot whose span holds it) can generate its runs.
pub open spec fn table_ok(spots: Seq<parser::Spot>, for_date: LocalTime) -> bool {
    forall|i: int|
        0 <= i < spots.len() ==> {
            let spot = #[trigger] spots[i];
            &&& spot.start.wf()
            &&& spot.end.wf()
            &&& spot.spec_is_valid(for_date) ==> forall|j: int|
                0 <= j < spot.schedules@.len() && (#[trigger] spot.schedules@[j]).spec_is_valid(
                    for_date,
                ) ==> spot.schedules@[j].can_generate()
        }
}

/// The runs of all spots, spot after spot, each with the spot's address.
pub open spec fn flat_runs(spots: Seq<(Seq<char>, Seq<LocalTime>)>) -> Seq<(Seq<char>, LocalTime)>
    decreases spots.len(),
{
    if spots.len() == 0 {
        Seq::empty()
    } else {
        flat_runs(spots.drop_last()) + spots.last().1.map_values(
            |t: LocalTime| (spots.last().0, t),
        )
    }
}

/// Whether a list of runs is in time order.
pub open spec fn runs_sorted(s: Seq<(Seq<char>, LocalTime)>) -> bool {
    forall|i: int, j: int| 0 <= i < j < s.len() ==> s[i].1.at.instant() <= s[j].1.at.instant()
}

/// The runs at one moment, in the order in which they stand.
pub open spec fn runs_at_instant(s: Seq<(Seq<char>, LocalTime)>, k: int) -> Seq<(Seq<char>, LocalTime)> {
    s.filter(|e: (Seq<char>, LocalTime)| e.1.at.instant() == k)
}

/// Whether [`SpotIntervals::process`] can be called with this time table at
/// `for_date`; see [`table_ok`].
pub fn check_table(spots: &TimeTable, for_date: &LocalTime) -> (r: bool)
    requires
        for_date.at.wf(),
    ensures
        r == table_ok(spots.spots@, *for_date),
{
    let mut i: usize = 0;
    while i < spots.spots.len()
        invariant
            i <= spots.spots@.len(),
            for_date.at.wf(),
            table_ok(spots.spots@.subrange(0, i as int), *for_date),
        decreases spots.spots@.len() - i,
    {
        let spot = &spots.spots[i];
        let ghost prefix = spots.spots@.subrange(0, i as int);
        let ghost next = spots.spots@.subrange(0, i + 1);
        assert(next[i as int] == spot);
        if !spot.start.is_wf() || !spot.end.is_wf() {
            assert(!table_ok(spots.spots@, *for_date)) by {
                assert(spots.spots@[i as int] == spot);
            }
            return false;
        }
        if spot.is_valid(for_date) {
            let mut j: usize = 0;
            while j < spot.schedules.len()
                invariant
                    j <= spot.schedules@.len(),
                    for_date.at.wf(),
                    i < spots.spots@.len(),
                    spots.spots@[i as int] == spot,
                    spot.spec_is_valid(*for_date),
                    forall|k: int|
                        0 <= k < j && (#[trigger] spot.schedules@[k]).spec_is_valid(*for_date)
                            ==> spot.schedules@[k].can_generate(),
                decreases spot.schedules@.len() - j,
            {
                let sched = &spot.schedules[j];
                if sched.is_valid(for_date) && !sched.can_generate_intervals() {
                    assert(!table_ok(spots.spots@, *for_date)) by {
                        assert(spots.spots@[i as int] == spot);
                        assert(spot.schedules@[j as int] == sched);
                    }
                    return false;
                }
                j = j + 1;
            }
        }
        assert forall|k: int| 0 <= k < i + 1 implies {
            let sp = #[trigger] next[k];
            &&& sp.start.wf()
            &&& sp.end.wf()
            &&& sp.spec_is_valid(*for_date) ==> forall|j: int|
                0 <= j < sp.schedules@.len() && (#[trigger] sp.schedules@[j]).spec_is_valid(*for_date)
                    ==> sp.schedules@[j].can_generate()
        } by {
            if k < i {
                assert(next[k] == prefix[k]);
            }
        }
        i = i + 1;
    }
    assert(spots.spots@.subrange(0, spots.spots@.len() as int) =~= spots.spots@);
    true
}

impl View for SpotIntervals {
    type V = Seq<(Seq<char>, Seq<LocalTime>)>;

    open spec fn view(&self) -> Seq<(Seq<char>, Seq<LocalTime>)> {
        self.spots@.map_values(|s: Spot| (s.uri@, s.runs_at@))
    }
}

impl SpotIntervals {
    /// Every run is a well-formed time.
    pub open spec fn wf(&self) -> bool {
        forall|i: int, j: int|
            0 <= i < self@.len() && 0 <= j < self@[i].1.len() ==> (#[trigger] self@[i].1[j]).at.wf()
    }

    /// Adds, in order, each spot of the time table that runs on the day of
    /// `for_date`, with its runs that day.
    pub fn process(&mut self, spots: TimeTable, for_date: &LocalTime)
        requires
            for_date.at.wf(),
            table_ok(spots.spots@, *for_date),
            old(self).wf(),
        ensures
            final(self)@ == old(self)@ + spec_process(spots.spots@, *for_date),
            final(self).wf(),
    {
        let mut i: usize = 0;
        while i < spots.spots.len()
            invariant
                i <= spots.spots@.len(),
                for_date.at.wf(),
                table_ok(spots.spots@, *for_date),
                self@ == old(self)@ + spec_process(spots.spots@.take(i as int), *for_date),
                self.wf(),
            decreases spots.spots@.len() - i,
        {
            let spot = &spots.spots[i];
            assert(spots.spots@.take(i as int + 1).drop_last() =~= spots.spots@.take(i as int));
            assert(spots.spots@.take(i as int + 1).last() == *spot);
            assert(spot.start.wf() && spot.end.wf());
            if spot.is_valid(for_date) {
                let mut schedules: Vec<LocalTime> = Vec::new();
                let mut j: usize = 0;
                while j < spot.schedules.len()
                    invariant
                        j <= spot.schedules@.len(),
                        for_date.at.wf(),
                        spot.spec_is_valid(*for_date),
                        table_ok(spots.spots@, *for_date),
                        *spot == spots.spots@[i as int],
                        0 <= i < spots.spots@.len(),
                        schedules@ == schedule_runs(spot.schedules@.take(j as int), *for_date),
                        forall|k: int| 0 <= k < schedules@.len() ==> (#[trigger] schedules@[k]).at.wf(),
                    decreases spot.schedules@.len() - j,
                {
                    let schedule = &spot.schedules[j];
                    assert(spot.schedules@.take(j as int + 1).drop_last() =~= spot.schedules@.take(
                        j as int,
                    ));
                    assert(spot.schedules@.take(j as int + 1).last() == *schedule);
                    if schedule.is_valid(for_date) {
                        assert(schedule.can_generate());
                        assert(spot.schedules@[j as int] == *schedule);
                        let generated = match schedule.generate_intervals(for_date) {
                            Some(v) => v,
                            None => Vec::new(),
                        };
                        assert(generated@ =~= schedule.spec_generate_intervals(*for_date));
                        proof {
                            lemma_generated_wf(*schedule, *for_date);
                        }
                        let ghost before = schedules@;
                        let mut generated = generated;
                        schedules.append(&mut generated);
                        assert(schedules@ =~= schedule_runs(
                            spot.schedules@.take(j as int + 1),
                            *for_date,
                        ));
                        assert forall|k: int| 0 <= k < schedules@.len() implies (
                        #[trigger] schedules@[k]).at.wf() by {
                            if k >= before.len() {
                                assert(schedules@[k] == schedule.spec_generate_intervals(
                                    *for_date,
                                )[k - before.len()]);
                            }
                        }
                    } else {
                        assert(schedules@ =~= schedule_runs(
                            spot.schedules@.take(j as int + 1),
                            *for_date,
                        ));
                    }
                    j = j + 1;
                }
                assert(spot.schedules@.take(j as int) =~= spot.schedules@);
                if schedules.len() > 0 {
                    let ghost before = self@;
                    self.spots.push(Spot { uri: spot.uri.clone(), runs_at: schedules });
                    assert(self@ =~= before.push((spot.uri@, schedule_runs(spot.schedules@, *for_date))));
                    assert(self@ =~= old(self)@ + spec_process(spots.spots@.take(i as int + 1), *for_date));
                    assert forall|a: int, b: int|
                        0 <= a < self@.len() && 0 <= b < self@[a].1.len() implies (
                        #[trigger] self@[a].1[b]).at.wf() by {
                        if a < before.len() {
                            assert(self@[a] == before[a]);
                        }
                    }
                } else {
                    assert(self@ =~= old(self)@ + spec_process(spots.spots@.take(i as int + 1), *for_date));
                }
            } else {
                assert(self@ =~= old(self)@ + spec_process(spots.spots@.take(i as int + 1), *for_date));
            }
            i = i + 1;
        }
        assert(spots.spots@.take(i as int) =~= spots.spots@);
    }
}

/// The runs a schedule generates are well-formed times.
pub proof fn lemma_generated_wf(schedule: Schedule, for_date: LocalTime)
    requires
        for_date.at.wf(),
        schedule.can_generate(),
    ensures
        forall|k: int|
            0 <= k < schedule.spec_generate_intervals(for_date).len() ==> (
            #[trigger] schedule.spec_generate_intervals(for_date)[k]).at.wf(),
{
    let amount = parser::interval_amount(schedule.interval@);
    let unit = parser::interval_unit(schedule.interval@);
    if amount != 0 {
        let all = parser::window_minutes(
            schedule.start_minute(),
            parser::step_minutes(unit, amount),
            schedule.end_minute(),
        );
        let kept = all.filter(|t: int| t * 60 >= for_date.at.second_of_day());
        lemma_window_in_day(schedule.start_minute(), parser::step_minutes(unit, amount), schedule.end_minute());
        assert forall|k: int| 0 <= k < kept.len() implies 0 <= #[trigger] kept[k] < 1440 by {
            all.lemma_filter_pred(|t: int| t * 60 >= for_date.at.second_of_day(), k);
            assert(all.filter(|t: int| t * 60 >= for_date.at.second_of_day()).contains(kept[k]));
            all.lemma_filter_contains_rev(|t: int| t * 60 >= for_date.at.second_of_day(), kept[k]);
        }
    }
}

/// Every minute of the window lies within the day, and within the window.
pub proof fn lemma_window_in_day(t: int, step: int, end_minute: int)
    ensures
        forall|k: int|
            0 <= k < parser::window_minutes(t, step, end_minute).len() ==> parser::in_window(
                #[trigger] parser::window_minutes(t, step, end_minute)[k],
                end_minute,
            ),
        forall|k: int|
            0 <= k < parser::window_minutes(t, step, end_minute).len() ==> 0 <= #[trigger] parser::window_minutes(
                t,
                step,
                end_minute,
            )[k] < 1440,
    decreases parser::window_measure(t, step),
{
    if step != 0 && parser::in_window(t, end_minute) {
        lemma_window_in_day(t + step, step, end_minute);
        let rest = parser::window_minutes(t + step, step, end_minute);
        assert forall|k: int|
            0 <= k < parser::window_minutes(t, step, end_minute).len() implies parser::in_window(
            #[trigger] parser::window_minutes(t, step, end_minute)[k],
            end_minute,
        ) by {
            if k > 0 {
                assert(parser::window_minutes(t, step, end_minute)[k] == rest[k - 1]);
            }
        }
    }
}

/// With an interval set, no run of a schedule comes before the moment asked
/// for, and every run lies on its day and not after the schedule's end point
/// (23:59 when none is set).
pub proof fn lemma_runs_in_window(schedule: Schedule, for_date: LocalTime)
    requires
        parser::interval_amount(schedule.interval@) != 0,
    ensures
        forall|k: int|
            0 <= k < schedule.spec_generate_intervals(for_date).len() ==> {
                let run = #[trigger] schedule.spec_generate_intervals(for_date)[k];
                &&& run.at.second_of_day() >= for_date.at.second_of_day()
                &&& run.at.year == for_date.at.year && run.at.month == for_date.at.month
                    && run.at.day == for_date.at.day
                &&& run.weekday == for_date.weekday
                &&& run.at.hour * 60 + run.at.minute <= schedule.end_minute()
            },
{
    let amount = parser::interval_amount(schedule.interval@);
    let unit = parser::interval_unit(schedule.interval@);
    let all = parser::window_minutes(
        schedule.start_minute(),
        parser::step_minutes(unit, amount),
        schedule.end_minute(),
    );
    let kept = all.filter(|t: int| t * 60 >= for_date.at.second_of_day());
    lemma_window_in_day(schedule.start_minute(), parser::step_minutes(unit, amount), schedule.end_minute());
    assert forall|k: int| 0 <= k < kept.len() implies {
        &&& parser::in_window(#[trigger] kept[k], schedule.end_minute())
        &&& kept[k] * 60 >= for_date.at.second_of_day()
    } by {
        all.lemma_filter_pred(|t: int| t * 60 >= for_date.at.second_of_day(), k);
        assert(all.filter(|t: int| t * 60 >= for_date.at.second_of_day()).contains(kept[k]));
        all.lemma_filter_contains_rev(|t: int| t * 60 >= for_date.at.second_of_day(), kept[k]);
    }
    assert forall|k: int| 0 <= k < schedule.spec_generate_intervals(for_date).len() implies {
        let run = #[trigger] schedule.spec_generate_intervals(for_date)[k];
        &&& run.at.second_of_day() >= for_date.at.second_of_day()
        &&& run.at.year == for_date.at.year && run.at.month == for_date.at.month
            && run.at.day == for_date.at.day
        &&& run.weekday == for_date.weekday
        &&& run.at.hour * 60 + run.at.minute <= schedule.end_minute()
    } by {
        let t = kept[k];
        assert(parser::in_window(t, schedule.end_minute()));
        assert(t * 60 >= for_date.at.second_of_day());
        assert(schedule.spec_generate_intervals(for_date)[k] == parser::at_minute(for_date, t));
        assert((t / 60) * 60 + t % 60 == t);
    }
}


/// The view of a list of runs.
pub open spec fn runs_view(v: Seq<ScheduledSpot>) -> Seq<(Seq<char>, LocalTime)> {
    v.map_values(|s: ScheduledSpot| (s.uri@, s.runs_at))
}

/// Inserting an element after every element at or before its moment keeps a
/// sorted list sorted, and adds it last among those at its moment.
#[verifier::spinoff_prover]
#[verifier::rlimit(40)]
proof fn lemma_insert_sorted(r: Seq<(Seq<char>, LocalTime)>, p: int, x: (Seq<char>, LocalTime))
    requires
        runs_sorted(r),
        0 <= p <= r.len(),
        forall|q: int| 0 <= q < p ==> r[q].1.at.instant() <= x.1.at.instant(),
        forall|q: int| p <= q < r.len() ==> r[q].1.at.instant() > x.1.at.instant(),
    ensures
        runs_sorted(r.insert(p, x)),
        forall|k: int| #[trigger] runs_at_instant(r.insert(p, x), k) == if k == x.1.at.instant() {
            runs_at_instant(r, k).push(x)
        } else {
            runs_at_instant(r, k)
        },
{
    let r2 = r.insert(p, x);
    assert forall|i: int, j: int| 0 <= i < j < r2.len() implies r2[i].1.at.instant()
        <= r2[j].1.at.instant() by {
        if i < p && j > p {
            assert(r2[i] == r[i]);
            assert(r2[j] == r[j - 1]);
        } else if i < p && j == p {
            assert(r2[i] == r[i]);
        } else if i == p {
            assert(r2[j] == r[j - 1]);
        } else if i > p {
            assert(r2[i] == r[i - 1]);
            assert(r2[j] == r[j - 1]);
        } else {
            assert(r2[i] == r[i]);
            assert(r2[j] == r[j]);
        }
    }
    let a = r.subrange(0, p);
    let b = r.subrange(p, r.len() as int);
    assert(r =~= a + b);
    assert(r2 =~= a.push(x) + b);
    assert forall|k: int| #[trigger] runs_at_instant(r2, k) == if k == x.1.at.instant() {
        runs_at_instant(r, k).push(x)
    } else {
        runs_at_instant(r, k)
    } by {
        let f = |e: (Seq<char>, LocalTime)| e.1.at.instant() == k;
        Seq::filter_distributes_over_add(a.push(x), b, f);
        Seq::filter_distributes_over_add(a, b, f);
        a.lemma_filter_push(x, f);
        if k == x.1.at.instant() {
            assert(b.filter(f) =~= Seq::<(Seq<char>, LocalTime)>::empty()) by {
                reveal(Seq::filter);
                lemma_filter_none(b, f);
            }
            assert(a.filter(f).push(x) + b.filter(f) =~= (a.filter(f) + b.filter(f)).push(x));
        }
    }
}

proof fn lemma_filter_none(s: Seq<(Seq<char>, LocalTime)>, f: spec_fn((Seq<char>, LocalTime)) -> bool)
    requires
        forall|i: int| 0 <= i < s.len() ==> !f(s[i]),
    ensures
        s.filter(f) =~= Seq::<(Seq<char>, LocalTime)>::empty(),
    decreases s.len(),
{
    reveal(Seq::filter);
    if s.len() > 0 {
        lemma_filter_none(s.drop_last(), f);
    }
}

impl SpotIntervals {
    /// All runs of all spots, sorted by time; runs at the same moment keep
    /// the order in which their spots and runs stand.
    pub fn sort(&self) -> (r: Vec<ScheduledSpot>)
        requires
            self.wf(),
        ensures
            runs_sorted(runs_view(r@)),
            forall|k: int| #[trigger] runs_at_instant(runs_view(r@), k) == runs_at_instant(
                flat_runs(self@),
                k,
            ),
    {
        let mut unsorted_list: Vec<ScheduledSpot> = Vec::new();
        let mut i: usize = 0;
        while i < self.spots.len()
            invariant
                i <= self.spots@.len(),
                self.wf(),
                runs_view(unsorted_list@) == flat_runs(self@.take(i as int)),
                forall|k: int| 0 <= k < unsorted_list@.len() ==> (#[trigger] unsorted_list@[k]).runs_at.at.wf(),
            decreases self.spots@.len() - i,
        {
            let spot = &self.spots[i];
            assert(self@[i as int] == (spot.uri@, spot.runs_at@));
            let ghost base = runs_view(unsorted_list@);
            let mut j: usize = 0;
            while j < spot.runs_at.len()
                invariant
                    j <= spot.runs_at@.len(),
                    0 <= i < self.spots@.len(),
                    *spot == self.spots@[i as int],
                    self@[i as int] == (spot.uri@, spot.runs_at@),
                    self.wf(),
                    runs_view(unsorted_list@) == base + spot.runs_at@.take(j as int).map_values(
                        |t: LocalTime| (spot.uri@, t),
                    ),
                    forall|k: int| 0 <= k < unsorted_list@.len() ==> (#[trigger] unsorted_list@[k]).runs_at.at.wf(),
                decreases spot.runs_at@.len() - j,
            {
                let at = spot.runs_at[j];
                assert(self@[i as int].1[j as int] == at);
                let ghost before_view = runs_view(unsorted_list@);
                let uri = spot.uri.clone();
                unsorted_list.push(ScheduledSpot { uri: uri, runs_at: at });
                assert(runs_view(unsorted_list@) =~= before_view.push((spot.uri@, at)));
                assert(spot.runs_at@.take(j as int + 1).map_values(|t: LocalTime| (spot.uri@, t))
                    =~= spot.runs_at@.take(j as int).map_values(|t: LocalTime| (spot.uri@, t)).push(
                    (spot.uri@, at),
                ));
                assert(spot.runs_at@.take(j as int + 1) =~= spot.runs_at@.take(j as int).push(at));
                assert(runs_view(unsorted_list@) =~= base + spot.runs_at@.take(j as int + 1).map_values(
                    |t: LocalTime| (spot.uri@, t),
                ));
                j = j + 1;
            }
            assert(spot.runs_at@.take(j as int) =~= spot.runs_at@);
            assert(self@.take(i as int + 1).drop_last() =~= self@.take(i as int));
            assert(self@.take(i as int + 1).last() == self@[i as int]);
            i = i + 1;
        }
        assert(self@.take(i as int) =~= self@);
        let ghost flat = runs_view(unsorted_list@);
        let mut sorted: Vec<ScheduledSpot> = Vec::new();
        let mut n: usize = 0;
        while n < unsorted_list.len()
            invariant
                n <= unsorted_list@.len(),
                flat == runs_view(unsorted_list@),
                forall|k: int| 0 <= k < unsorted_list@.len() ==> (#[trigger] unsorted_list@[k]).runs_at.at.wf(),
                forall|k: int| 0 <= k < sorted@.len() ==> (#[trigger] sorted@[k]).runs_at.at.wf(),
                runs_sorted(runs_view(sorted@)),
                forall|k: int| #[trigger] runs_at_instant(runs_view(sorted@), k) == runs_at_instant(
                    flat.take(n as int),
                    k,
                ),
            decreases unsorted_list@.len() - n,
        {
            let item = &unsorted_list[n];
            let key = item.runs_at.at.instant_key();
            let mut p: usize = 0;
            while p < sorted.len() && sorted[p].runs_at.at.instant_key() <= key
                invariant
                    p <= sorted@.len(),
                    forall|k: int| 0 <= k < sorted@.len() ==> (#[trigger] sorted@[k]).runs_at.at.wf(),
                    forall|q: int| 0 <= q < p ==> sorted@[q].runs_at.at.instant() <= key,
                decreases sorted@.len() - p,
            {
                p = p + 1;
            }
            let ghost before = runs_view(sorted@);
            let ghost old_sorted = sorted@;
            let x = ScheduledSpot { uri: item.uri.clone(), runs_at: item.runs_at };
            proof {
                assert forall|q: int| p <= q < before.len() implies before[q].1.at.instant()
                    > key by {
                    if p < before.len() {
                        assert(before[p as int].1.at.instant() > key);
                        assert(before[p as int].1.at.instant() <= before[q].1.at.instant());
                    }
                }
                lemma_insert_sorted(before, p as int, (x.uri@, x.runs_at));
            }
            sorted.insert(p, x);
            assert(runs_view(sorted@) =~= before.insert(p as int, (x.uri@, x.runs_at)));
            proof {
                assert(flat.take(n as int + 1) =~= flat.take(n as int).push(flat[n as int]));
                assert forall|k: int| #[trigger] runs_at_instant(runs_view(sorted@), k)
                    == runs_at_instant(flat.take(n as int + 1), k) by {
                    let f = |e: (Seq<char>, LocalTime)| e.1.at.instant() == k;
                    flat.take(n as int).lemma_filter_push(flat[n as int], f);
                }
                assert forall|k: int| 0 <= k < sorted@.len() implies (#[trigger] sorted@[k]).runs_at.at.wf() by {
                    if k < p {
                        assert(sorted@[k] == old_sorted[k]);
                    } else if k > p {
                        assert(sorted@[k] == old_sorted[k - 1]);
                    }
                }
            }
            n = n + 1;
        }
        assert(flat.take(n as int) =~= flat);
        sorted
    }
}

} // verus!
