//! The text of a list of weekdays, as the schedule attribute `weekdays` holds
//! it: names and ranges of names separated by commas, such as `Mon-Wed,Fri`.
use vstd::prelude::*;
use crate::text::{
    chars_of, contains_chars, contains_seq, free_of, join_with, lemma_split_free,
    lemma_split_join, lemma_split_nonempty, lemma_split_pair, split_chars, split_on,
};
use crate::weekday::{
    Weekday, day_at, day_index, lemma_day_at_index, lemma_index_day_at, lemma_name_parses,
    parse_weekday,
    short_name, spec_succ, spec_weekday_from_str,
};

verus! {

broadcast use vstd::seq_lib::group_seq_properties;

/// The days of `s` other than `d`, in order.
pub open spec fn without(s: Seq<Weekday>, d: Weekday) -> Seq<Weekday> {
    s.filter(|x: Weekday| x != d)
}

/// Extends a run of consecutive days that ends at `cur` with the following
/// days while they are still in `rem`, taking each out of `rem`; gives the
/// last day of the run, the number of days added since the start and what is
/// left.
pub open spec fn run_end(rem: Seq<Weekday>, cur: Weekday, counter: nat) -> (Weekday, nat, Seq<
    Weekday,
>)
    decreases 8 - counter,
{
    let next = spec_succ(cur);
    if counter <= 7 && rem.contains(next) && next != cur {
        run_end(without(rem, next), next, counter + 1)
    } else {
        (cur, counter, rem)
    }
}

/// One piece of the text: a single day, or a range from a first to a last day.
pub struct DayRange {
    pub first: Weekday,
    pub last: Weekday,
    pub is_range: bool,
}

pub proof fn lemma_without_len(s: Seq<Weekday>, d: Weekday)
    ensures
        without(s, d).len() <= s.len(),
        s.contains(d) ==> without(s, d).len() < s.len(),
        forall|x: Weekday| #[trigger] without(s, d).contains(x) <==> (s.contains(x) && x != d),
    decreases s.len(),
{
    reveal(Seq::filter);
    if s.len() > 0 {
        lemma_without_len(s.drop_last(), d);
        assert forall|x: Weekday| #[trigger] without(s, d).contains(x) <==> (s.contains(x) && x
            != d) by {
            if s.contains(x) && x != d {
                let i = choose|i: int| 0 <= i < s.len() && s[i] == x;
                if i < s.len() - 1 {
                    assert(s.drop_last().contains(x)) by {
                        assert(s.drop_last()[i] == x);
                    }
                }
            }
            if without(s, d).contains(x) {
                if s.last() != d {
                    if x != s.last() {
                        assert(without(s.drop_last(), d).contains(x));
                    }
                }
                assert(s.drop_last().contains(x) ==> s.contains(x)) by {
                    if s.drop_last().contains(x) {
                        let i = choose|i: int| 0 <= i < s.drop_last().len() && s.drop_last()[i] == x;
                        assert(s[i] == x);
                    }
                }
            }
        }
        if s.contains(d) && s.last() != d {
            let i = choose|i: int| 0 <= i < s.len() && s[i] == d;
            assert(s.drop_last()[i] == d);
        }
    }
}

pub proof fn lemma_run_end_len(rem: Seq<Weekday>, cur: Weekday, counter: nat)
    ensures
        run_end(rem, cur, counter).2.len() <= rem.len(),
    decreases 8 - counter,
{
    let next = spec_succ(cur);
    if counter <= 7 && rem.contains(next) && next != cur {
        lemma_without_len(rem, next);
        lemma_run_end_len(without(rem, next), next, counter + 1);
    }
}

/// The pieces in which the days are written: each run of consecutive days
/// (following the first remaining day) becomes one piece, first day first.
pub open spec fn day_ranges(rem: Seq<Weekday>) -> Seq<DayRange>
    decreases rem.len(),
{
    if rem.len() == 0 {
        Seq::empty()
    } else {
        let start = rem[0];
        let r = run_end(without(rem, start), start, 0);
        proof {
            lemma_without_len(rem, start);
            assert(rem.contains(start)) by {
                assert(rem[0] == start);
            }
            lemma_run_end_len(without(rem, start), start, 0);
        }
        seq![DayRange { first: start, last: r.0, is_range: r.1 > 0 }] + day_ranges(r.2)
    }
}

/// The text of one piece: `Mon` or `Mon-Wed`.
pub open spec fn render(r: DayRange) -> Seq<char> {
    if r.is_range {
        short_name(r.first).push('-') + short_name(r.last)
    } else {
        short_name(r.first)
    }
}

/// The text written for a list of days; the empty list stands for the whole week.
pub open spec fn spec_serialize(days: Seq<Weekday>) -> Seq<char> {
    if days.len() == 0 {
        seq!['M', 'o', 'n', '-', 'S', 'u', 'n']
    } else {
        join_with(day_ranges(days).map_values(|r: DayRange| render(r)), ',')
    }
}

/// Whether a piece of text holds a `-`.
pub open spec fn has_dash(t: Seq<char>) -> bool {
    contains_seq(t, seq!['-'])
}

/// How many steps lead from day `a` forward to day `b`.
pub open spec fn cycle_len(a: Weekday, b: Weekday) -> nat {
    ((day_index(b) + 7 - day_index(a)) % 7) as nat
}

/// The days from `a` forward to `b`, both included.
pub open spec fn day_cycle(a: Weekday, b: Weekday) -> Seq<Weekday> {
    Seq::new(cycle_len(a, b) + 1, |i: int| day_at((day_index(a) + i) as nat))
}

/// Whether a piece of text reads as a day or a range of days.
pub open spec fn token_valid(t: Seq<char>) -> bool {
    if has_dash(t) {
        let p = split_on(t, '-');
        spec_weekday_from_str(p[0]) is Some && spec_weekday_from_str(p[1]) is Some
    } else {
        spec_weekday_from_str(t) is Some
    }
}

/// The days that a piece of text stands for.
pub open spec fn expand_token(t: Seq<char>) -> Seq<Weekday> {
    if has_dash(t) {
        let p = split_on(t, '-');
        day_cycle(spec_weekday_from_str(p[0])->Some_0, spec_weekday_from_str(p[1])->Some_0)
    } else {
        seq![spec_weekday_from_str(t)->Some_0]
    }
}

pub open spec fn expand_tokens(ts: Seq<Seq<char>>) -> Seq<Weekday>
    decreases ts.len(),
{
    if ts.len() == 0 {
        Seq::empty()
    } else {
        expand_tokens(ts.drop_last()) + expand_token(ts.last())
    }
}

/// Whether a weekday text can be read: each comma-separated piece names a
/// day, or a first and a last day around a `-`.
pub open spec fn spec_valid(s: Seq<char>) -> bool {
    s.len() == 0 || forall|i: int|
        0 <= i < split_on(s, ',').len() ==> token_valid(#[trigger] split_on(s, ',')[i])
}

/// The days that a weekday text stands for; the empty text stands for none.
pub open spec fn spec_deserialize(s: Seq<char>) -> Seq<Weekday> {
    if s.len() == 0 {
        Seq::empty()
    } else {
        expand_tokens(split_on(s, ','))
    }
}

pub proof fn lemma_cycle_step(a: Weekday, b: Weekday, k: nat)
    requires
        k <= cycle_len(a, b),
    ensures
        (day_at(day_index(a) + k) == b) <==> (k == cycle_len(a, b)),
        cycle_len(a, b) < 7,
{
    lemma_index_day_at(day_index(a) + k);
    if day_at(day_index(a) + k) == b {
        assert((day_index(a) + k) % 7 == day_index(b));
    }
}

/// A text with a `-` splits at it into at least two pieces.
pub proof fn lemma_dash_splits(t: Seq<char>)
    requires
        has_dash(t),
    ensures
        split_on(t, '-').len() >= 2,
    decreases t.len(),
{
    let i = choose|i: int| 0 <= i && i + 1 <= t.len() && #[trigger] t.subrange(i, i + 1) == seq![
        '-',
    ];
    assert(t[i] == t.subrange(i, i + 1)[0]);
    lemma_split_nonempty(t.drop_last(), '-');
    if i == t.len() - 1 {
        assert(t.last() == '-');
    } else {
        assert(t.drop_last().subrange(i, i + 1) =~= t.subrange(i, i + 1));
        lemma_dash_splits(t.drop_last());
    }
}

/// Takes every occurrence of `d` out of `v`.
fn remove_day(v: &mut Vec<Weekday>, d: Weekday)
    ensures
        final(v)@ == without(old(v)@, d),
{
    let mut kept: Vec<Weekday> = Vec::new();
    let mut i: usize = 0;
    while i < v.len()
        invariant
            i <= v@.len(),
            v@ == old(v)@,
            kept@ == without(v@.take(i as int), d),
        decreases v@.len() - i,
    {
        let x = v[i];
        assert(v@.take(i as int + 1) =~= v@.take(i as int).push(x));
        proof {
            reveal(Seq::filter);
            assert(v@.take(i as int + 1).drop_last() =~= v@.take(i as int));
        }
        if x != d {
            kept.push(x);
        }
        i = i + 1;
    }
    assert(v@.take(i as int) =~= v@);
    *v = kept;
}

fn contains_day(v: &Vec<Weekday>, d: Weekday) -> (r: bool)
    ensures
        r == v@.contains(d),
{
    let mut i: usize = 0;
    while i < v.len()
        invariant
            i <= v@.len(),
            forall|k: int| 0 <= k < i ==> v@[k] != d,
        decreases v@.len() - i,
    {
        if v[i] == d {
            return true;
        }
        i = i + 1;
    }
    false
}

/// Writes a list of days: runs of following days become `First-Last`, other
/// days their own name, the pieces joined with `,`; an empty list is written
/// `Mon-Sun`.
pub fn serialize(h_m: &Vec<Weekday>) -> (r: String)
    ensures
        r@ == spec_serialize(h_m@),
{
    if h_m.len() == 0 {
        proof {
            reveal_strlit("Mon-Sun");
        }
        let r = String::from_str("Mon-Sun");
        assert(r@ =~= spec_serialize(h_m@));
        return r;
    }
    let mut out = String::new();
    let mut hm_array: Vec<Weekday> = h_m.clone();
    let ghost mut done: Seq<DayRange> = Seq::empty();
    let mut first = true;
    assert(h_m@ == hm_array@);
    while hm_array.len() > 0
        invariant
            day_ranges(h_m@) == done + day_ranges(hm_array@),
            out@ == join_with(done.map_values(|r: DayRange| render(r)), ','),
            h_m@.len() > 0,
            done.len() == 0 ==> hm_array@ == h_m@,
            first == (done.len() == 0),
        decreases hm_array@.len(),
    {
        let ghost rem0 = hm_array@;
        let start_day = hm_array[0];
        let mut current_day = start_day;
        remove_day(&mut hm_array, current_day);
        let mut next_day = current_day.succ();
        let mut inner_counter: usize = 0;
        proof {
            lemma_without_len(rem0, start_day);
            assert(rem0.contains(start_day)) by {
                assert(rem0[0] == start_day);
            }
        }
        while contains_day(&hm_array, next_day) && next_day != current_day && inner_counter <= 7
            invariant
                run_end(hm_array@, current_day, inner_counter as nat) == run_end(
                    without(rem0, start_day),
                    start_day,
                    0,
                ),
                next_day == spec_succ(current_day),
                inner_counter <= 8,
                hm_array@.len() < rem0.len(),
            decreases 8 - inner_counter,
        {
            current_day = next_day;
            inner_counter = inner_counter + 1;
            proof {
                lemma_without_len(hm_array@, current_day);
            }
            remove_day(&mut hm_array, current_day);
            next_day = current_day.succ();
        }
        let piece = DayRange { first: start_day, last: current_day, is_range: inner_counter > 0 };
        assert(day_ranges(rem0) == seq![piece] + day_ranges(hm_array@));
        let ghost old_out = out@;
        let ghost old_pieces = done.map_values(|r: DayRange| render(r));
        if !first {
            proof {
                reveal_strlit(",");
            }
            out.append(",");
        }
        start_day.push_name(&mut out);
        if inner_counter > 0 {
            proof {
                reveal_strlit("-");
            }
            out.append("-");
            current_day.push_name(&mut out);
        }
        proof {
            let new_pieces = (done.push(piece)).map_values(|r: DayRange| render(r));
            assert(new_pieces =~= old_pieces.push(render(piece)));
            if done.len() > 0 {
                assert(new_pieces.drop_last() =~= old_pieces);
                assert(out@ =~= old_out.push(',') + render(piece));
            } else {
                assert(old_pieces =~= Seq::<Seq<char>>::empty());
                assert(out@ =~= render(piece));
            }
            assert(done.push(piece) + day_ranges(hm_array@) =~= done + (seq![piece] + day_ranges(
                hm_array@,
            )));
            done = done.push(piece);
        }
        first = false;
    }
    assert(day_ranges(hm_array@) =~= Seq::<DayRange>::empty());
    assert(done + day_ranges(hm_array@) =~= done);
    out
}


/// Appends the days from `a` forward to `b`, both included.
fn push_cycle(out: &mut Vec<Weekday>, a: Weekday, b: Weekday)
    ensures
        final(out)@ == old(out)@ + day_cycle(a, b),
{
    let mut start_day = a;
    let ghost mut k: nat = 0;
    proof {
        lemma_day_at_index(a);
    }
    while start_day != b
        invariant
            k <= cycle_len(a, b),
            start_day == day_at(day_index(a) + k),
            out@ == old(out)@ + day_cycle(a, b).take(k as int),
        decreases cycle_len(a, b) - k,
    {
        proof {
            lemma_cycle_step(a, b, k);
        }
        let ghost before = out@;
        out.push(start_day);
        start_day = start_day.succ();
        proof {
            lemma_index_day_at(day_index(a) + k);
            assert(day_cycle(a, b).take(k as int + 1) =~= day_cycle(a, b).take(k as int).push(
                day_at(day_index(a) + k),
            ));
            assert(out@ =~= old(out)@ + day_cycle(a, b).take(k as int + 1));
            k = k + 1;
            assert(day_at(day_index(a) + k) == spec_succ(day_at((day_index(a) + k - 1) as nat)));
        }
    }
    proof {
        lemma_cycle_step(a, b, k);
        assert(day_cycle(a, b).take(k as int).push(b) =~= day_cycle(a, b));
    }
    out.push(b);
}

/// Whether a weekday text can be read by [`deserialize`]; see [`spec_valid`].
pub fn is_valid(s: &str) -> (r: bool)
    ensures
        r == spec_valid(s@),
{
    let chars = chars_of(s);
    if chars.len() == 0 {
        return true;
    }
    let in_array = split_chars(&chars, ',');
    let ghost tokens = in_array@.map_values(|p: Vec<char>| p@);
    let dash: Vec<char> = vec!['-'];
    assert(dash@ =~= seq!['-']);
    let mut i: usize = 0;
    while i < in_array.len()
        invariant
            tokens == in_array@.map_values(|p: Vec<char>| p@),
            tokens == split_on(s@, ','),
            s@.len() > 0,
            i <= in_array@.len(),
            dash@ == seq!['-'],
            forall|k: int| 0 <= k < i ==> token_valid(#[trigger] tokens[k]),
        decreases in_array@.len() - i,
    {
        let day = &in_array[i];
        assert(day@ == tokens[i as int]);
        let ok = if contains_chars(day, &dash) {
            proof {
                lemma_dash_splits(day@);
            }
            let from_to_day = split_chars(day, '-');
            let ghost fv = from_to_day@.map_values(|p: Vec<char>| p@);
            assert(fv[0] == from_to_day@[0]@);
            assert(fv[1] == from_to_day@[1]@);
            parse_weekday(&from_to_day[0]).is_some() && parse_weekday(&from_to_day[1]).is_some()
        } else {
            parse_weekday(day).is_some()
        };
        if !ok {
            assert(!token_valid(tokens[i as int]));
            return false;
        }
        i = i + 1;
    }
    true
}

/// Reads a list of days: each comma-separated piece is a day's name, or two
/// names around a `-` standing for the days from the first forward to the
/// last; the empty text gives no days.
pub fn deserialize(s: &str) -> (r: Vec<Weekday>)
    requires
        spec_valid(s@),
    ensures
        r@ == spec_deserialize(s@),
{
    let chars = chars_of(s);
    let mut output_array: Vec<Weekday> = Vec::new();
    if chars.len() == 0 {
        return output_array;
    }
    let in_array = split_chars(&chars, ',');
    let ghost tokens = in_array@.map_values(|p: Vec<char>| p@);
    let dash: Vec<char> = vec!['-'];
    assert(dash@ =~= seq!['-']);
    let mut i: usize = 0;
    while i < in_array.len()
        invariant
            tokens == in_array@.map_values(|p: Vec<char>| p@),
            tokens == split_on(s@, ','),
            s@.len() > 0,
            spec_valid(s@),
            i <= in_array@.len(),
            dash@ == seq!['-'],
            output_array@ == expand_tokens(tokens.take(i as int)),
        decreases in_array@.len() - i,
    {
        let day = &in_array[i];
        assert(day@ == tokens[i as int]);
        assert(token_valid(tokens[i as int]));
        let ghost before = output_array@;
        if contains_chars(day, &dash) {
            proof {
                lemma_dash_splits(day@);
            }
            let from_to_day = split_chars(day, '-');
            let ghost fv = from_to_day@.map_values(|p: Vec<char>| p@);
            assert(fv[0] == from_to_day@[0]@);
            assert(fv[1] == from_to_day@[1]@);
            let start_day = match parse_weekday(&from_to_day[0]) {
                Some(d) => d,
                None => {
                    proof {
                        assert(false);
                    }
                    return output_array;
                },
            };
            let end_day = match parse_weekday(&from_to_day[1]) {
                Some(d) => d,
                None => {
                    proof {
                        assert(false);
                    }
                    return output_array;
                },
            };
            push_cycle(&mut output_array, start_day, end_day);
        } else {
            match parse_weekday(day) {
                Some(d) => {
                    output_array.push(d);
                },
                None => {
                    proof {
                        assert(false);
                    }
                },
            }
        }
        proof {
            assert(tokens.take(i as int + 1).drop_last() =~= tokens.take(i as int));
            assert(tokens.take(i as int + 1).last() == tokens[i as int]);
            assert(output_array@ =~= before + expand_token(tokens[i as int]));
        }
        i = i + 1;
    }
    assert(tokens.take(i as int) =~= tokens);
    output_array
}


/// The days that one written piece stands for.
pub open spec fn range_days(r: DayRange) -> Seq<Weekday> {
    if r.is_range {
        day_cycle(r.first, r.last)
    } else {
        seq![r.first]
    }
}

/// The day `j` days after `s`.
pub open spec fn step(s: Weekday, j: nat) -> Weekday {
    day_at(day_index(s) + j)
}

proof fn lemma_step_succ(s: Weekday, j: nat)
    ensures
        spec_succ(step(s, j)) == step(s, j + 1),
{
    lemma_index_day_at(day_index(s) + j);
}

/// What a run started at `s` takes out of the remaining days.
#[verifier::spinoff_prover]
#[verifier::rlimit(100)]
proof fn lemma_run_end(rem: Seq<Weekday>, s: Weekday, counter: nat)
    requires
        counter <= 6,
        forall|j: nat| j <= counter ==> !rem.contains(#[trigger] step(s, j)),
    ensures
        ({
            let r = run_end(rem, step(s, counter), counter);
            &&& counter <= r.1 <= 6
            &&& r.0 == step(s, r.1)
            &&& forall|j: nat| j <= r.1 ==> !r.2.contains(#[trigger] step(s, j))
            &&& forall|x: Weekday|
                #[trigger] rem.contains(x) <==> (r.2.contains(x) || exists|j: nat|
                    counter < j <= r.1 && x == #[trigger] step(s, j))
        }),
    decreases 8 - counter,
{
    let cur = step(s, counter);
    let next = spec_succ(cur);
    lemma_step_succ(s, counter);
    if counter <= 7 && rem.contains(next) && next != cur {
        let rem2 = without(rem, next);
        lemma_without_len(rem, next);
        assert(counter + 1 <= 6) by {
            assert(!rem.contains(step(s, 0)));
            if counter + 1 == 7 {
                assert(step(s, 7) == s) by {
                    lemma_index_day_at(day_index(s) + 7);
                    lemma_day_at_index(s);
                }
            }
        }
        assert forall|j: nat| j <= counter + 1 implies !rem2.contains(#[trigger] step(s, j)) by {
            if j <= counter {
                assert(!rem.contains(step(s, j)));
            }
        }
        lemma_run_end(rem2, s, counter + 1);
        let r = run_end(rem2, step(s, counter + 1), counter + 1);
        assert(run_end(rem, cur, counter) == r);
        assert forall|x: Weekday| #[trigger] rem.contains(x) <==> (r.2.contains(x) || exists|j: nat|
            counter < j <= r.1 && x == #[trigger] step(s, j)) by {
            if rem.contains(x) {
                if x == next {
                    assert(counter < counter + 1 <= r.1 && x == step(s, counter + 1));
                } else {
                    assert(rem2.contains(x));
                }
            }
            if exists|j: nat| counter < j <= r.1 && x == #[trigger] step(s, j) {
                let j = choose|j: nat| counter < j <= r.1 && x == #[trigger] step(s, j);
                if j > counter + 1 {
                    assert(rem2.contains(x));
                }
            }
            if r.2.contains(x) {
                assert(rem2.contains(x));
            }
        }
    }
}

/// The days of one piece are the days of its run.
proof fn lemma_range_days(s: Weekday, c: nat, x: Weekday)
    requires
        c <= 6,
    ensures
        range_days(DayRange { first: s, last: step(s, c), is_range: c > 0 }).contains(x) <==> exists|
            j: nat,
        | j <= c && x == #[trigger] step(s, j),
{
    let r = DayRange { first: s, last: step(s, c), is_range: c > 0 };
    lemma_index_day_at(day_index(s) + c);
    lemma_day_at_index(s);
    if c == 0 {
        if x == s {
            assert(x == step(s, 0));
        }
        if exists|j: nat| j <= c && x == #[trigger] step(s, j) {
            assert(x == step(s, 0));
        }
    } else {
        assert(cycle_len(s, step(s, c)) == c);
        let cyc = day_cycle(s, step(s, c));
        if cyc.contains(x) {
            let i = choose|i: int| 0 <= i < cyc.len() && cyc[i] == x;
            assert(x == step(s, i as nat));
        }
        if exists|j: nat| j <= c && x == #[trigger] step(s, j) {
            let j = choose|j: nat| j <= c && x == #[trigger] step(s, j);
            assert(cyc[j as int] == x);
        }
    }
}

/// Every remaining day is written in exactly the pieces that stand for it.
proof fn lemma_day_ranges_cover(rem: Seq<Weekday>, x: Weekday)
    ensures
        rem.contains(x) <==> exists|i: int|
            0 <= i < day_ranges(rem).len() && #[trigger] range_days(day_ranges(rem)[i]).contains(x),
    decreases rem.len(),
{
    if rem.len() > 0 {
        let s = rem[0];
        let rem1 = without(rem, s);
        lemma_without_len(rem, s);
        assert(rem.contains(s)) by {
            assert(rem[0] == s);
        }
        assert(step(s, 0) == s) by {
            lemma_day_at_index(s);
        }
        assert forall|j: nat| j <= 0 implies !rem1.contains(#[trigger] step(s, j)) by {}
        lemma_run_end(rem1, s, 0);
        let r = run_end(rem1, s, 0);
        lemma_run_end_len(rem1, s, 0);
        lemma_day_ranges_cover(r.2, x);
        let piece = DayRange { first: s, last: r.0, is_range: r.1 > 0 };
        let rs = day_ranges(rem);
        assert(rs == seq![piece] + day_ranges(r.2));
        lemma_range_days(s, r.1, x);
        if rem.contains(x) {
            if x == s {
                assert(range_days(rs[0]).contains(x));
            } else if r.2.contains(x) {
                let i = choose|i: int|
                    0 <= i < day_ranges(r.2).len() && #[trigger] range_days(day_ranges(r.2)[i]).contains(x);
                assert(rs[i + 1] == day_ranges(r.2)[i]);
            } else {
                assert(rem1.contains(x));
                assert(range_days(rs[0]).contains(x));
            }
        }
        if exists|i: int| 0 <= i < rs.len() && #[trigger] range_days(rs[i]).contains(x) {
            let i = choose|i: int| 0 <= i < rs.len() && #[trigger] range_days(rs[i]).contains(x);
            if i == 0 {
                let j = choose|j: nat| j <= r.1 && x == #[trigger] step(s, j);
                if j > 0 {
                    assert(rem1.contains(x));
                }
            } else {
                assert(rs[i] == day_ranges(r.2)[i - 1]);
                assert(rem1.contains(x));
            }
        }
    }
}

/// The pieces of a non-empty list of days.
pub proof fn lemma_day_ranges_nonempty(rem: Seq<Weekday>)
    requires
        rem.len() > 0,
    ensures
        day_ranges(rem).len() > 0,
        forall|i: int| 0 <= i < day_ranges(rem).len() ==> ({
            let r = #[trigger] day_ranges(rem)[i];
            r.is_range ==> exists|c: nat| 1 <= c <= 6 && r.last == step(r.first, c)
        }),
    decreases rem.len(),
{
    let s = rem[0];
    let rem1 = without(rem, s);
    lemma_without_len(rem, s);
    assert(rem.contains(s)) by {
        assert(rem[0] == s);
    }
    assert(step(s, 0) == s) by {
        lemma_day_at_index(s);
    }
    assert forall|j: nat| j <= 0 implies !rem1.contains(#[trigger] step(s, j)) by {}
    lemma_run_end(rem1, s, 0);
    let r = run_end(rem1, s, 0);
    lemma_run_end_len(rem1, s, 0);
    let rs = day_ranges(rem);
    let piece = DayRange { first: s, last: r.0, is_range: r.1 > 0 };
    assert(rs == seq![piece] + day_ranges(r.2));
    if r.2.len() > 0 {
        lemma_day_ranges_nonempty(r.2);
    }
    assert forall|i: int| 0 <= i < rs.len() implies ({
        let q = #[trigger] rs[i];
        q.is_range ==> exists|c: nat| 1 <= c <= 6 && q.last == step(q.first, c)
    }) by {
        if i == 0 {
            if piece.is_range {
                assert(1 <= r.1 <= 6 && piece.last == step(piece.first, r.1));
            }
        } else {
            assert(rs[i] == day_ranges(r.2)[i - 1]);
        }
    }
}

/// A name holds neither `,` nor `-`.
proof fn lemma_name_free(d: Weekday)
    ensures
        free_of(short_name(d), ','),
        free_of(short_name(d), '-'),
        short_name(d).len() == 3,
{
}

/// A written piece reads back as the days it stands for.
proof fn lemma_render_reads_back(r: DayRange)
    requires
        r.is_range ==> exists|c: nat| 1 <= c <= 6 && r.last == step(r.first, c),
    ensures
        token_valid(render(r)),
        expand_token(render(r)) == range_days(r),
        free_of(render(r), ','),
{
    lemma_name_free(r.first);
    lemma_name_free(r.last);
    lemma_name_parses(r.first);
    lemma_name_parses(r.last);
    let t = render(r);
    if r.is_range {
        let a = short_name(r.first);
        let b = short_name(r.last);
        assert(t.subrange(3int, 3int + 1) =~= seq!['-']);
        assert(has_dash(t));
        lemma_split_pair(a, b, '-');
        assert forall|i: int| 0 <= i < t.len() implies t[i] != ',' by {
            if i < 3 {
                assert(t[i] == a[i]);
            } else if i > 3 {
                assert(t[i] == b[i - 4]);
            }
        }
    } else {
        assert(!has_dash(t)) by {
            if has_dash(t) {
                let i = choose|i: int| 0 <= i && i + 1 <= t.len() && #[trigger] t.subrange(i, i + 1)
                    == seq!['-'];
                assert(t[i] == t.subrange(i, i + 1)[0]);
            }
        }
    }
}

proof fn lemma_expand_tokens_contains(ts: Seq<Seq<char>>, x: Weekday)
    ensures
        expand_tokens(ts).contains(x) <==> exists|i: int|
            0 <= i < ts.len() && #[trigger] expand_token(ts[i]).contains(x),
    decreases ts.len(),
{
    if ts.len() > 0 {
        lemma_expand_tokens_contains(ts.drop_last(), x);
        let a = expand_tokens(ts.drop_last());
        let b = expand_token(ts.last());
        if (a + b).contains(x) {
            let k = choose|k: int| 0 <= k < (a + b).len() && (a + b)[k] == x;
            if k < a.len() {
                assert(a[k] == x);
                let i = choose|i: int|
                    0 <= i < ts.drop_last().len() && #[trigger] expand_token(ts.drop_last()[i]).contains(x);
                assert(ts[i] == ts.drop_last()[i]);
            } else {
                assert(b[k - a.len()] == x);
            }
        }
        if exists|i: int| 0 <= i < ts.len() && #[trigger] expand_token(ts[i]).contains(x) {
            let i = choose|i: int| 0 <= i < ts.len() && #[trigger] expand_token(ts[i]).contains(x);
            if i < ts.len() - 1 {
                assert(ts.drop_last()[i] == ts[i]);
                let k = choose|k: int| 0 <= k < a.len() && a[k] == x;
                assert((a + b)[k] == x);
            } else {
                let k = choose|k: int| 0 <= k < b.len() && b[k] == x;
                assert((a + b)[a.len() + k] == x);
            }
        }
    }
}

/// The days of a list of pieces, piece after piece.
pub open spec fn ranges_days(rs: Seq<DayRange>) -> Seq<Weekday>
    decreases rs.len(),
{
    if rs.len() == 0 {
        Seq::empty()
    } else {
        ranges_days(rs.drop_last()) + range_days(rs.last())
    }
}

proof fn lemma_ranges_days_cons(p: DayRange, t: Seq<DayRange>)
    ensures
        ranges_days(seq![p] + t) == range_days(p) + ranges_days(t),
    decreases t.len(),
{
    if t.len() == 0 {
        assert(seq![p] + t =~= seq![p]);
        assert(seq![p].drop_last() =~= Seq::<DayRange>::empty());
        assert(Seq::<Weekday>::empty() + range_days(p) =~= range_days(p));
        assert(range_days(p) + Seq::<Weekday>::empty() =~= range_days(p));
    } else {
        lemma_ranges_days_cons(p, t.drop_last());
        assert((seq![p] + t).drop_last() =~= seq![p] + t.drop_last());
        assert((seq![p] + t).last() == t.last());
        assert(range_days(p) + ranges_days(t.drop_last()) + range_days(t.last()) =~= range_days(p)
            + (ranges_days(t.drop_last()) + range_days(t.last())));
    }
}

proof fn lemma_no_dup_concat(a: Seq<Weekday>, b: Seq<Weekday>)
    requires
        a.no_duplicates(),
        b.no_duplicates(),
        forall|x: Weekday| a.contains(x) ==> !b.contains(x),
    ensures
        (a + b).no_duplicates(),
{
    let c = a + b;
    assert forall|i: int, j: int| 0 <= i < c.len() && 0 <= j < c.len() && i != j implies c[i]
        != c[j] by {
        if i < a.len() && j < a.len() {
            assert(c[i] == a[i] && c[j] == a[j]);
        } else if i >= a.len() && j >= a.len() {
            assert(c[i] == b[i - a.len()] && c[j] == b[j - a.len()]);
        } else if i < a.len() {
            assert(c[i] == a[i] && a.contains(a[i]));
            assert(c[j] == b[j - a.len()] && b.contains(b[j - a.len()]));
        } else {
            assert(c[j] == a[j] && a.contains(a[j]));
            assert(c[i] == b[i - a.len()] && b.contains(b[i - a.len()]));
        }
    }
}

/// The days of one run name no day twice.
proof fn lemma_range_no_dup(s: Weekday, c: nat)
    requires
        c <= 6,
    ensures
        range_days(DayRange { first: s, last: step(s, c), is_range: c > 0 }).no_duplicates(),
{
    if c > 0 {
        lemma_index_day_at(day_index(s) + c);
        lemma_day_at_index(s);
        assert(cycle_len(s, step(s, c)) == c);
        let cyc = day_cycle(s, step(s, c));
        assert forall|i: int, j: int| 0 <= i < cyc.len() && 0 <= j < cyc.len() && i != j implies cyc[i]
            != cyc[j] by {
            lemma_index_day_at((day_index(s) + i) as nat);
            lemma_index_day_at((day_index(s) + j) as nat);
            assert((day_index(s) + i) % 7 != (day_index(s) + j) % 7);
        }
    }
}

/// The days of the pieces of a list name no day twice, and only days of the list.
proof fn lemma_day_ranges_no_dup(rem: Seq<Weekday>)
    ensures
        ranges_days(day_ranges(rem)).no_duplicates(),
        forall|x: Weekday| #[trigger] ranges_days(day_ranges(rem)).contains(x) ==> rem.contains(x),
    decreases rem.len(),
{
    if rem.len() == 0 {
        assert(ranges_days(day_ranges(rem)) =~= Seq::<Weekday>::empty());
    } else {
        let s = rem[0];
        let rem1 = without(rem, s);
        lemma_without_len(rem, s);
        assert(rem.contains(s)) by {
            assert(rem[0] == s);
        }
        assert(step(s, 0) == s) by {
            lemma_day_at_index(s);
        }
        assert forall|j: nat| j <= 0 implies !rem1.contains(#[trigger] step(s, j)) by {}
        lemma_run_end(rem1, s, 0);
        let r = run_end(rem1, s, 0);
        lemma_run_end_len(rem1, s, 0);
        lemma_day_ranges_no_dup(r.2);
        let piece = DayRange { first: s, last: r.0, is_range: r.1 > 0 };
        assert(day_ranges(rem) == seq![piece] + day_ranges(r.2));
        lemma_ranges_days_cons(piece, day_ranges(r.2));
        lemma_range_no_dup(s, r.1);
        let a = range_days(piece);
        let b = ranges_days(day_ranges(r.2));
        assert forall|x: Weekday| #[trigger] a.contains(x) implies !b.contains(x) && rem.contains(x) by {
            lemma_range_days(s, r.1, x);
            let j = choose|j: nat| j <= r.1 && x == #[trigger] step(s, j);
            assert(!r.2.contains(step(s, j)));
            if j > 0 {
                assert(rem1.contains(x));
            }
        }
        assert forall|x: Weekday| #[trigger] b.contains(x) implies rem.contains(x) by {
            assert(r.2.contains(x));
            assert(rem1.contains(x));
        }
        lemma_no_dup_concat(a, b);
    }
}

/// Reading the written pieces gives their days, piece after piece.
proof fn lemma_expand_pieces(ts: Seq<Seq<char>>, rs: Seq<DayRange>)
    requires
        ts.len() == rs.len(),
        forall|i: int| 0 <= i < ts.len() ==> expand_token(#[trigger] ts[i]) == range_days(rs[i]),
    ensures
        expand_tokens(ts) == ranges_days(rs),
    decreases ts.len(),
{
    if ts.len() > 0 {
        assert forall|i: int| 0 <= i < ts.drop_last().len() implies expand_token(
            #[trigger] ts.drop_last()[i],
        ) == range_days(rs.drop_last()[i]) by {
            assert(ts.drop_last()[i] == ts[i]);
            assert(rs.drop_last()[i] == rs[i]);
        }
        lemma_expand_pieces(ts.drop_last(), rs.drop_last());
        assert(expand_token(ts[ts.len() - 1]) == range_days(rs[rs.len() - 1]));
    }
}

/// Writing a non-empty list of days and reading the text back gives the same
/// days, each of them once, in the order of the runs.
pub proof fn lemma_roundtrip(days: Seq<Weekday>)
    requires
        days.len() > 0,
    ensures
        spec_valid(spec_serialize(days)),
        spec_deserialize(spec_serialize(days)).no_duplicates(),
        forall|x: Weekday| #[trigger] spec_deserialize(spec_serialize(days)).contains(x)
            <==> days.contains(x),
{
    let rs = day_ranges(days);
    lemma_day_ranges_nonempty(days);
    let pieces = rs.map_values(|r: DayRange| render(r));
    assert forall|i: int| 0 <= i < pieces.len() implies free_of(#[trigger] pieces[i], ',') && token_valid(
        pieces[i],
    ) && expand_token(pieces[i]) == range_days(rs[i]) by {
        lemma_render_reads_back(rs[i]);
    }
    lemma_split_join(pieces, ',');
    let text = join_with(pieces, ',');
    assert(text.len() > 0) by {
        lemma_join_nonempty(pieces, ',');
    }
    assert(spec_deserialize(spec_serialize(days)).no_duplicates()) by {
        lemma_expand_pieces(pieces, rs);
        lemma_day_ranges_no_dup(days);
    }
    assert forall|x: Weekday| #[trigger] spec_deserialize(spec_serialize(days)).contains(x)
        <==> days.contains(x) by {
        lemma_expand_tokens_contains(pieces, x);
        lemma_day_ranges_cover(days, x);
        if days.contains(x) {
            let i = choose|i: int| 0 <= i < rs.len() && #[trigger] range_days(rs[i]).contains(x);
            assert(expand_token(pieces[i]).contains(x));
        }
        if exists|i: int| 0 <= i < pieces.len() && #[trigger] expand_token(pieces[i]).contains(x) {
            let i = choose|i: int| 0 <= i < pieces.len() && #[trigger] expand_token(pieces[i]).contains(x);
            assert(range_days(rs[i]).contains(x));
        }
    }
}

proof fn lemma_join_nonempty(pieces: Seq<Seq<char>>, sep: char)
    requires
        pieces.len() >= 1,
        forall|i: int| 0 <= i < pieces.len() ==> (#[trigger] pieces[i]).len() > 0 || i > 0,
    ensures
        join_with(pieces, sep).len() > 0,
    decreases pieces.len(),
{
    if pieces.len() > 1 {
        assert forall|i: int| 0 <= i < pieces.drop_last().len() implies (
        #[trigger] pieces.drop_last()[i]).len() > 0 || i > 0 by {
            assert(pieces.drop_last()[i] == pieces[i]);
        }
        lemma_join_nonempty(pieces.drop_last(), sep);
    }
}

/// The text written for no days reads back as the whole week, Monday first.
pub proof fn lemma_empty_is_whole_week()
    ensures
        spec_valid(spec_serialize(Seq::empty())),
        spec_deserialize(spec_serialize(Seq::empty())) == seq![
            Weekday::Mon,
            Weekday::Tue,
            Weekday::Wed,
            Weekday::Thu,
            Weekday::Fri,
            Weekday::Sat,
            Weekday::Sun,
        ],
{
    let r = DayRange { first: Weekday::Mon, last: Weekday::Sun, is_range: true };
    assert(render(r) =~= spec_serialize(Seq::empty()));
    assert(Weekday::Sun == step(Weekday::Mon, 6));
    lemma_render_reads_back(r);
    lemma_split_free(render(r), ',');
    assert(split_on(render(r), ',') =~= seq![render(r)]);
    assert(seq![render(r)].drop_last() =~= Seq::<Seq<char>>::empty());
    assert(seq![render(r)].last() == render(r));
    assert(expand_tokens(Seq::<Seq<char>>::empty()) == Seq::<Weekday>::empty());
    assert(expand_tokens(seq![render(r)]) == expand_tokens(seq![render(r)].drop_last())
        + expand_token(render(r)));
    assert(expand_tokens(seq![render(r)]) =~= expand_token(render(r)));
    assert(day_cycle(Weekday::Mon, Weekday::Sun) =~= seq![
        Weekday::Mon,
        Weekday::Tue,
        Weekday::Wed,
        Weekday::Thu,
        Weekday::Fri,
        Weekday::Sat,
        Weekday::Sun,
    ]);
}

} // verus!
