//! Wall-clock times of day and their text form `HH:MM`.

use crate::time::date::Date;
use crate::time::datetime::DateTime;
use crate::time::prelude::TimeLike;
use crate::time::text::{
    chars_of, find_char, find_from, is_digit, lemma_find_from, lemma_padded_digits,
    lemma_trim_unchanged, padded, parse_unsigned, push_padded, trim, trim_range, unsigned_text,
};
use std::cmp::Ordering;
use vstd::prelude::*;

verus! {

/// A time of day with minute precision.
#[derive(Debug, PartialEq, Eq, Clone, Copy, Structural, Ord)]
pub struct Time {
    hour: u32,
    minute: u32,
}

impl View for Time {
    type V = (int, int);

    /// (hour, minute).
    closed spec fn view(&self) -> (int, int) {
        (self.hour as int, self.minute as int)
    }
}

pub open spec fn valid_time(hour: int, minute: int) -> bool {
    0 <= hour <= 23 && 0 <= minute <= 59
}

pub open spec fn compare_hm(a: (int, int), b: (int, int)) -> Ordering {
    if a.0 < b.0 {
        Ordering::Less
    } else if a.0 > b.0 {
        Ordering::Greater
    } else if a.1 < b.1 {
        Ordering::Less
    } else if a.1 > b.1 {
        Ordering::Greater
    } else {
        Ordering::Equal
    }
}

/// `HH:MM`, each field zero-padded.
pub open spec fn time_text(t: (int, int)) -> Seq<char> {
    padded(t.0 as nat, 2) + seq![':'] + padded(t.1 as nat, 2)
}

/// What the text `s` denotes: after trimming, the parts before and after
/// the first `:`, each trimmed and read as an unsigned decimal, must form a
/// valid time.
pub open spec fn time_of_text(s: Seq<char>) -> Option<(int, int)> {
    let t = trim(s);
    let i = find_from(t, ':', 0);
    if i >= t.len() {
        None
    } else {
        match (
            unsigned_text(trim(t.subrange(0, i))),
            unsigned_text(trim(t.subrange(i + 1, t.len() as int))),
        ) {
            (Some(h), Some(m)) => if valid_time(h, m) {
                Some((h, m))
            } else {
                None
            },
            _ => None,
        }
    }
}

/// Every valid time, written in its text form, reads back as itself.
pub proof fn lemma_time_round_trip(hour: u32, minute: u32)
    requires
        valid_time(hour as int, minute as int),
    ensures
        time_of_text(time_text((hour as int, minute as int))) == Some((hour as int, minute as int)),
{
    let ph = padded(hour as nat, 2);
    let pm = padded(minute as nat, 2);
    let t = time_text((hour as int, minute as int));
    lemma_padded_digits(hour as nat, 2);
    lemma_padded_digits(minute as nat, 2);
    assert(is_digit(ph[0]) && is_digit(ph[ph.len() - 1]));
    assert(is_digit(pm[0]) && is_digit(pm[pm.len() - 1]));
    lemma_trim_unchanged(ph);
    lemma_trim_unchanged(pm);
    assert(t[0] == ph[0]);
    assert(t.last() == pm[pm.len() - 1]);
    lemma_trim_unchanged(t);
    let i = ph.len() as int;
    assert forall|k: int| 0 <= k < i implies t[k] != ':' by {
        assert(t[k] == ph[k]);
        assert(is_digit(ph[k]));
    }
    lemma_find_from(t, ':', 0, i);
    assert(t.subrange(0, i) =~= ph);
    assert(t.subrange(i + 1, t.len() as int) =~= pm);
}

pub fn is_valid_time(hour: u32, minute: u32) -> (r: bool)
    ensures
        r == valid_time(hour as int, minute as int),
{
    hour <= 23 && minute <= 59
}

impl Time {
    #[verifier::type_invariant]
    spec fn inv(&self) -> bool {
        valid_time(self.hour as int, self.minute as int)
    }

    /// Makes known to the caller that this time is valid; it does nothing
    /// at run time.
    pub fn lemma_valid(&self)
        ensures
            valid_time(self@.0, self@.1),
    {
        proof {
            use_type_invariant(self);
        }
    }

    /// Times with the same (hour, minute) are equal.
    pub proof fn lemma_view_eq(a: Time, b: Time)
        ensures
            a@ == b@ ==> a == b,
    {
    }

    /// The time `hour:minute`, if `hour <= 23` and `minute <= 59`.
    pub fn from_hm(hour: u32, minute: u32) -> (r: Option<Time>)
        ensures
            r is Some <==> valid_time(hour as int, minute as int),
            r matches Some(t) ==> t@ == (hour as int, minute as int),
    {
        if !is_valid_time(hour, minute) {
            return None;
        }
        Some(Time { hour, minute })
    }

    /// The text form `HH:MM`.
    pub fn to_string(&self) -> (r: String)
        ensures
            r@ == time_text(self@),
    {
        let mut out = String::new();
        push_padded(&mut out, self.hour, 2);
        out.push(':');
        push_padded(&mut out, self.minute, 2);
        assert(out@ =~= time_text(self@));
        out
    }

    /// Parses the text form; surrounding whitespace is ignored.
    pub fn parse(s: &str) -> (r: Result<Time, ()>)
        ensures
            r matches Ok(t) ==> time_of_text(s@) == Some(t@),
            r is Err ==> time_of_text(s@) is None,
    {
        let cs = chars_of(s);
        assert(cs@.subrange(0, cs@.len() as int) =~= s@);
        Self::parse_range(&cs, 0, cs.len())
    }

    /// Parses the text form held in `s[lo..hi]`.
    pub fn parse_range(s: &Vec<char>, lo: usize, hi: usize) -> (r: Result<Time, ()>)
        requires
            lo <= hi <= s@.len(),
        ensures
            r matches Ok(t) ==> time_of_text(s@.subrange(lo as int, hi as int)) == Some(t@),
            r is Err ==> time_of_text(s@.subrange(lo as int, hi as int)) is None,
    {
        let (a, b) = trim_range(s, lo, hi);
        let ghost t = s@.subrange(a as int, b as int);
        let i = find_char(s, a, b, ':');
        if i == b {
            return Err(());
        }
        assert(t.subrange(0, i - a) =~= s@.subrange(a as int, i as int));
        assert(t.subrange(i - a + 1, t.len() as int) =~= s@.subrange(i + 1, b as int));
        let (ha, hb) = trim_range(s, a, i);
        let (ma, mb) = trim_range(s, i + 1, b);
        let hour = parse_unsigned(s, ha, hb, 23);
        let minute = parse_unsigned(s, ma, mb, 59);
        match (hour, minute) {
            (Some(h), Some(m)) => Ok(Time { hour: h, minute: m }),
            _ => Err(()),
        }
    }
}

impl TimeLike for Time {
    fn hour(&self) -> (r: u32)
        ensures
            r == self@.0,
    {
        self.hour
    }

    fn minute(&self) -> (r: u32)
        ensures
            r == self@.1,
    {
        self.minute
    }

    fn with_date(&self, date: Date) -> (r: DateTime)
        ensures
            r@ == (date@, self@),
    {
        DateTime::new(date, *self)
    }
}

impl PartialOrd for Time {
    fn partial_cmp(&self, other: &Time) -> (r: Option<Ordering>)
        ensures
            r == Some(compare_hm(self@, other@)),
    {
        if self.hour < other.hour {
            Some(Ordering::Less)
        } else if self.hour > other.hour {
            Some(Ordering::Greater)
        } else if self.minute < other.minute {
            Some(Ordering::Less)
        } else if self.minute > other.minute {
            Some(Ordering::Greater)
        } else {
            Some(Ordering::Equal)
        }
    }
}

impl vstd::std_specs::cmp::PartialOrdSpecImpl for Time {
    open spec fn obeys_partial_cmp_spec() -> bool {
        true
    }

    open spec fn partial_cmp_spec(&self, other: &Time) -> Option<Ordering> {
        Some(compare_hm(self@, other@))
    }
}

impl std::str::FromStr for Time {
    type Err = ();

    fn from_str(s: &str) -> (r: Result<Time, ()>)
        ensures
            r matches Ok(t) ==> time_of_text(s@) == Some(t@),
            r is Err ==> time_of_text(s@) is None,
    {
        Time::parse(s)
    }
}

} // verus!
