//! Days of the week, as the schedules name them.
use vstd::prelude::*;

verus! {

/// A day of the week, Monday first.
#[derive(Debug, Clone, Copy, PartialEq, Eq, Structural)]
pub enum Weekday {
    Mon,
    Tue,
    Wed,
    Thu,
    Fri,
    Sat,
    Sun,
}

/// The number of days since Monday.
pub open spec fn day_index(d: Weekday) -> nat {
    match d {
        Weekday::Mon => 0,
        Weekday::Tue => 1,
        Weekday::Wed => 2,
        Weekday::Thu => 3,
        Weekday::Fri => 4,
        Weekday::Sat => 5,
        Weekday::Sun => 6,
    }
}

/// The day `n` days after Monday, counting round the week.
pub open spec fn day_at(n: nat) -> Weekday {
    let k = n % 7;
    if k == 0 {
        Weekday::Mon
    } else if k == 1 {
        Weekday::Tue
    } else if k == 2 {
        Weekday::Wed
    } else if k == 3 {
        Weekday::Thu
    } else if k == 4 {
        Weekday::Fri
    } else if k == 5 {
        Weekday::Sat
    } else {
        Weekday::Sun
    }
}

/// The next day, Sunday followed by Monday.
pub open spec fn spec_succ(d: Weekday) -> Weekday {
    day_at(day_index(d) + 1)
}

/// The three-letter name, as `Display` writes a day.
pub open spec fn short_name(d: Weekday) -> Seq<char> {
    match d {
        Weekday::Mon => seq!['M', 'o', 'n'],
        Weekday::Tue => seq!['T', 'u', 'e'],
        Weekday::Wed => seq!['W', 'e', 'd'],
        Weekday::Thu => seq!['T', 'h', 'u'],
        Weekday::Fri => seq!['F', 'r', 'i'],
        Weekday::Sat => seq!['S', 'a', 't'],
        Weekday::Sun => seq!['S', 'u', 'n'],
    }
}

/// The full name in lower case.
pub open spec fn long_name_lower(d: Weekday) -> Seq<char> {
    match d {
        Weekday::Mon => seq!['m', 'o', 'n', 'd', 'a', 'y'],
        Weekday::Tue => seq!['t', 'u', 'e', 's', 'd', 'a', 'y'],
        Weekday::Wed => seq!['w', 'e', 'd', 'n', 'e', 's', 'd', 'a', 'y'],
        Weekday::Thu => seq!['t', 'h', 'u', 'r', 's', 'd', 'a', 'y'],
        Weekday::Fri => seq!['f', 'r', 'i', 'd', 'a', 'y'],
        Weekday::Sat => seq!['s', 'a', 't', 'u', 'r', 'd', 'a', 'y'],
        Weekday::Sun => seq!['s', 'u', 'n', 'd', 'a', 'y'],
    }
}

/// Whether `c` is the ASCII letter `lower` in either case.
pub open spec fn same_letter(c: char, lower: char) -> bool {
    c == lower || (c as int) + 32 == (lower as int)
}

/// Whether `s` spells `lower` with ASCII letters in any case.
pub open spec fn spells(s: Seq<char>, lower: Seq<char>) -> bool {
    s.len() == lower.len() && forall|i: int| 0 <= i < s.len() ==> same_letter(s[i], lower[i])
}

/// Whether `s` names day `d`: its three-letter or its full name, in any case.
pub open spec fn names_day(s: Seq<char>, d: Weekday) -> bool {
    spells(s, long_name_lower(d).subrange(0, 3)) || spells(s, long_name_lower(d))
}

/// The day that `chrono` reads from a text, if any.
pub open spec fn spec_weekday_from_str(s: Seq<char>) -> Option<Weekday> {
    if names_day(s, Weekday::Mon) {
        Some(Weekday::Mon)
    } else if names_day(s, Weekday::Tue) {
        Some(Weekday::Tue)
    } else if names_day(s, Weekday::Wed) {
        Some(Weekday::Wed)
    } else if names_day(s, Weekday::Thu) {
        Some(Weekday::Thu)
    } else if names_day(s, Weekday::Fri) {
        Some(Weekday::Fri)
    } else if names_day(s, Weekday::Sat) {
        Some(Weekday::Sat)
    } else if names_day(s, Weekday::Sun) {
        Some(Weekday::Sun)
    } else {
        None
    }
}

impl Weekday {
    /// The next day in the week; Sunday is followed by Monday.
    pub fn succ(&self) -> (r: Weekday)
        ensures
            r == spec_succ(*self),
    {
        match self {
            Weekday::Mon => Weekday::Tue,
            Weekday::Tue => Weekday::Wed,
            Weekday::Wed => Weekday::Thu,
            Weekday::Thu => Weekday::Fri,
            Weekday::Fri => Weekday::Sat,
            Weekday::Sat => Weekday::Sun,
            Weekday::Sun => Weekday::Mon,
        }
    }

    /// Appends the three-letter name of the day.
    pub fn push_name(&self, out: &mut String)
        ensures
            final(out)@ == old(out)@ + short_name(*self),
    {
        proof {
            reveal_strlit("Mon");
            reveal_strlit("Tue");
            reveal_strlit("Wed");
            reveal_strlit("Thu");
            reveal_strlit("Fri");
            reveal_strlit("Sat");
            reveal_strlit("Sun");
        }
        let lit = match self {
            Weekday::Mon => "Mon",
            Weekday::Tue => "Tue",
            Weekday::Wed => "Wed",
            Weekday::Thu => "Thu",
            Weekday::Fri => "Fri",
            Weekday::Sat => "Sat",
            Weekday::Sun => "Sun",
        };
        assert(lit@ =~= short_name(*self));
        out.append(lit);
    }
}

/// `chrono::Weekday`'s `FromStr`: it accepts a day's three-letter name or its
/// full name, exactly, with ASCII letters in any case, and nothing else.
#[verifier::external_body]
pub fn parse_weekday(token: &Vec<char>) -> (r: Option<Weekday>)
    ensures
        r == spec_weekday_from_str(token@),
{
    let text: String = token.iter().collect();
    match text.parse::<chrono::Weekday>() {
        Ok(chrono::Weekday::Mon) => Some(Weekday::Mon),
        Ok(chrono::Weekday::Tue) => Some(Weekday::Tue),
        Ok(chrono::Weekday::Wed) => Some(Weekday::Wed),
        Ok(chrono::Weekday::Thu) => Some(Weekday::Thu),
        Ok(chrono::Weekday::Fri) => Some(Weekday::Fri),
        Ok(chrono::Weekday::Sat) => Some(Weekday::Sat),
        Ok(chrono::Weekday::Sun) => Some(Weekday::Sun),
        Err(_) => None,
    }
}

pub proof fn lemma_day_at_index(d: Weekday)
    ensures
        day_at(day_index(d)) == d,
        day_index(d) < 7,
{
}

pub proof fn lemma_index_day_at(n: nat)
    ensures
        day_index(day_at(n)) == n % 7,
{
}

/// The name written for a day reads back as that day.
pub proof fn lemma_name_parses(d: Weekday)
    ensures
        spec_weekday_from_str(short_name(d)) == Some(d),
{
    let s = short_name(d);
    let l = long_name_lower(d).subrange(0, 3);
    assert forall|i: int| 0 <= i < s.len() implies same_letter(s[i], l[i]) by {
        assert(s[0] as int + 32 == l[0] as int);
    }
    assert(spells(s, l));
    assert(names_day(s, d));
    assert forall|e: Weekday| e != d implies !#[trigger] spells(
        s,
        long_name_lower(e).subrange(0, 3),
    ) by {
        let m = long_name_lower(e).subrange(0, 3);
        assert(!same_letter(s[0], m[0]) || !same_letter(s[1], m[1]) || !same_letter(s[2], m[2]));
    }
    assert forall|e: Weekday| !#[trigger] spells(s, long_name_lower(e)) by {
        assert(long_name_lower(e).len() > 3);
    }
}

} // verus!
