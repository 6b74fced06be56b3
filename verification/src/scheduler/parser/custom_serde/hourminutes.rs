//! The `HH:MM` text of a time of day, as the schedule attributes `start` and `end` hold it.
use vstd::prelude::*;
use crate::text::{
    chars_of, lemma_digits_free, lemma_parse_digits, lemma_split_pair, lemma_two_digits_value,
    parse_unsigned, push_two_digits, spec_parse_unsigned, split_chars, split_on, two_digits,
};

verus! {

/// Why an hour/minute pair or its text was refused.
#[derive(Debug, Clone, Copy, PartialEq, Eq, Structural)]
pub enum HourMinuteError {
    /// The text is not two pieces separated by one `:`.
    InvalidFormat,
    /// Nothing stands before the `:`.
    HourEmpty,
    /// Nothing stands after the `:`.
    MinuteEmpty,
    /// The hour is no number that fits in a `u16`.
    HourNotANumber,
    /// The minute is no number that fits in a `u16`.
    MinuteNotANumber,
    /// The hour is 24 or more.
    HourOutOfRange(u16),
    /// The minute is 60 or more.
    MinuteOutOfRange(u16),
}

/// The text written for an optional time of day: empty for none, `HH:MM` otherwise.
pub open spec fn spec_serialize(h_m: Option<(u16, u16)>) -> Result<Seq<char>, HourMinuteError> {
    match h_m {
        None => Ok(Seq::empty()),
        Some(hm) => if hm.0 >= 24 {
            Err(HourMinuteError::HourOutOfRange(hm.0))
        } else if hm.1 >= 60 {
            Err(HourMinuteError::MinuteOutOfRange(hm.1))
        } else {
            Ok(two_digits(hm.0 as nat).push(':') + two_digits(hm.1 as nat))
        },
    }
}

/// The optional time of day read from a text; checks come in the order listed
/// in [`HourMinuteError`].
pub open spec fn spec_deserialize(s: Seq<char>) -> Result<Option<(u16, u16)>, HourMinuteError> {
    if s.len() == 0 {
        Ok(None)
    } else {
        let parts = split_on(s, ':');
        if parts.len() != 2 {
            Err(HourMinuteError::InvalidFormat)
        } else if parts[0].len() == 0 {
            Err(HourMinuteError::HourEmpty)
        } else if parts[1].len() == 0 {
            Err(HourMinuteError::MinuteEmpty)
        } else {
            match spec_parse_unsigned(parts[0], 0xffff) {
                None => Err(HourMinuteError::HourNotANumber),
                Some(h) => match spec_parse_unsigned(parts[1], 0xffff) {
                    None => Err(HourMinuteError::MinuteNotANumber),
                    Some(m) => if h >= 24 {
                        Err(HourMinuteError::HourOutOfRange(h as u16))
                    } else if m >= 60 {
                        Err(HourMinuteError::MinuteOutOfRange(m as u16))
                    } else {
                        Ok(Some((h as u16, m as u16)))
                    },
                },
            }
        }
    }
}

/// Writes an optional time of day as `HH:MM` (two digits each), or as the
/// empty text for none.
pub fn serialize(h_m: &Option<(u16, u16)>) -> (r: Result<String, HourMinuteError>)
    ensures
        match r {
            Ok(s) => spec_serialize(*h_m) == Ok::<Seq<char>, HourMinuteError>(s@),
            Err(e) => spec_serialize(*h_m) == Err::<Seq<char>, HourMinuteError>(e),
        },
{
    match h_m {
        None => Ok(String::new()),
        Some(hm) => {
            if hm.0 >= 24 {
                return Err(HourMinuteError::HourOutOfRange(hm.0));
            }
            if hm.1 >= 60 {
                return Err(HourMinuteError::MinuteOutOfRange(hm.1));
            }
            let mut out = String::new();
            push_two_digits(&mut out, hm.0 as u64);
            let ghost hour_part = out@;
            proof {
                reveal_strlit(":");
            }
            out.append(":");
            assert(out@ =~= hour_part.push(':'));
            push_two_digits(&mut out, hm.1 as u64);
            Ok(out)
        },
    }
}

/// Reads an optional time of day from `HH:MM`; the empty text is none.
pub fn deserialize(s: &str) -> (r: Result<Option<(u16, u16)>, HourMinuteError>)
    ensures
        r == spec_deserialize(s@),
{
    let chars = chars_of(s);
    if chars.len() == 0 {
        return Ok(None);
    }
    let parts = split_chars(&chars, ':');
    let ghost pv = parts@.map_values(|p: Vec<char>| p@);
    assert(pv.len() == parts@.len());
    if parts.len() != 2 {
        return Err(HourMinuteError::InvalidFormat);
    }
    assert(pv[0] == parts@[0]@);
    assert(pv[1] == parts@[1]@);
    if parts[0].len() == 0 {
        return Err(HourMinuteError::HourEmpty);
    }
    if parts[1].len() == 0 {
        return Err(HourMinuteError::MinuteEmpty);
    }
    let h = match parse_unsigned(&parts[0], 0xffff) {
        None => {
            return Err(HourMinuteError::HourNotANumber);
        },
        Some(h) => h,
    };
    let m = match parse_unsigned(&parts[1], 0xffff) {
        None => {
            return Err(HourMinuteError::MinuteNotANumber);
        },
        Some(m) => m,
    };
    if h >= 24 {
        return Err(HourMinuteError::HourOutOfRange(h as u16));
    }
    if m >= 60 {
        return Err(HourMinuteError::MinuteOutOfRange(m as u16));
    }
    Ok(Some((h as u16, m as u16)))
}

/// Writing a valid time of day and reading the text back gives the same time.
pub proof fn lemma_roundtrip(h: u16, m: u16)
    requires
        h < 24,
        m < 60,
    ensures
        spec_serialize(Some((h, m))) matches Ok(t) && spec_deserialize(t) == Ok::<
            Option<(u16, u16)>,
            HourMinuteError,
        >(Some((h, m))),
{
    let a = two_digits(h as nat);
    let b = two_digits(m as nat);
    lemma_two_digits_value(h as nat);
    lemma_two_digits_value(m as nat);
    lemma_digits_free(a, ':');
    lemma_digits_free(b, ':');
    lemma_split_pair(a, b, ':');
    lemma_parse_digits(a, 0xffff);
    lemma_parse_digits(b, 0xffff);
    let t = a.push(':') + b;
    assert(t.len() > 0);
}

/// The empty text and "no time" correspond to each other.
pub proof fn lemma_none_roundtrip()
    ensures
        spec_serialize(None) == Ok::<Seq<char>, HourMinuteError>(Seq::empty()),
        spec_deserialize(Seq::empty()) == Ok::<Option<(u16, u16)>, HourMinuteError>(None),
{
}

/// Whatever text was read successfully is written back in a form that reads as the same time.
pub proof fn lemma_deserialize_serialize(s: Seq<char>)
    requires
        spec_deserialize(s) is Ok,
    ensures
        spec_serialize(spec_deserialize(s)->Ok_0) matches Ok(t) && spec_deserialize(t)
            == spec_deserialize(s),
{
    match spec_deserialize(s)->Ok_0 {
        None => {},
        Some(hm) => {
            lemma_roundtrip(hm.0, hm.1);
        },
    }
}

} // verus!
