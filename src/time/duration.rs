//! Signed calendar offsets and their textual form `[+|-]<digits><unit>`.

use crate::time::text::{chars_of, parse_signed, push_signed, signed_decimal, signed_text, trim, trim_range};
use vstd::prelude::*;

verus! {

/// A signed offset in one calendar unit; a negative magnitude points into the past.
#[derive(Debug, PartialEq, Eq, Clone, Copy, Structural)]
pub enum Duration {
    Day(i32),
    Week(i32),
    Month(i32),
    Year(i32),
}

pub open spec fn magnitude(d: Duration) -> int {
    match d {
        Duration::Day(x) => x as int,
        Duration::Week(x) => x as int,
        Duration::Month(x) => x as int,
        Duration::Year(x) => x as int,
    }
}

pub open spec fn unit_char(d: Duration) -> char {
    match d {
        Duration::Day(_) => 'd',
        Duration::Week(_) => 'w',
        Duration::Month(_) => 'm',
        Duration::Year(_) => 'y',
    }
}

/// The textual form: the signed magnitude followed by the unit letter.
pub open spec fn duration_text(d: Duration) -> Seq<char> {
    signed_decimal(magnitude(d)).push(unit_char(d))
}

/// The offset with unit letter `unit` and magnitude `n`, if `unit` names a unit.
pub open spec fn with_unit(unit: char, n: i32) -> Option<Duration> {
    if unit == 'd' {
        Some(Duration::Day(n))
    } else if unit == 'w' {
        Some(Duration::Week(n))
    } else if unit == 'm' {
        Some(Duration::Month(n))
    } else if unit == 'y' {
        Some(Duration::Year(n))
    } else {
        None
    }
}

/// What the textual form `s` denotes: after trimming, the last character is
/// the unit and the rest a signed decimal that fits in an `i32`.
pub open spec fn duration_of_text(s: Seq<char>) -> Option<Duration> {
    let t = trim(s);
    if t.len() == 0 {
        None
    } else {
        match signed_text(t.drop_last()) {
            Some(v) => if i32::MIN <= v <= i32::MAX {
                with_unit(t.last(), v as i32)
            } else {
                None
            },
            None => None,
        }
    }
}

/// The (year, month, day) triple, before rollover, that `d` moves `date` to.
/// A week moves the day by two, not seven: this is the rule that the
/// navigation helpers and the relative text forms share.
pub open spec fn shifted(date: (int, int, int), d: Duration) -> (int, int, int) {
    match d {
        Duration::Day(x) => (date.0, date.1, date.2 + x),
        Duration::Week(x) => (date.0, date.1, date.2 + 2 * x),
        Duration::Month(x) => (date.0, date.1 + x, date.2),
        Duration::Year(x) => (date.0 + x, date.1, date.2),
    }
}

/// Formatting an offset and parsing the text gives the offset back.
pub proof fn lemma_duration_round_trip(d: Duration)
    ensures
        duration_of_text(duration_text(d)) == Some(d),
{
    let m = magnitude(d);
    let num = signed_decimal(m);
    let t = duration_text(d);
    crate::time::text::lemma_decimal_digits(if m < 0 {
        (-m) as nat
    } else {
        m as nat
    });
    if m < 0 {
        assert(num.drop_first() =~= crate::time::text::decimal((-m) as nat));
    }
    assert(num.len() > 0);
    assert(crate::time::text::is_digit(num.last()) || num.last() == '-') by {
        assert(num.last() == num[num.len() - 1]);
        if m < 0 {
            assert(num[num.len() - 1] == crate::time::text::decimal((-m) as nat)[num.len() - 2]);
        }
    }
    assert(!crate::time::text::is_white(num.last()));
    crate::time::text::lemma_trim_unchanged(t);
    assert(t.drop_last() =~= num);
}

impl Duration {
    /// The textual form, such as `-3d` or `10y`.
    pub fn to_string(&self) -> (r: String)
        ensures
            r@ == duration_text(*self),
    {
        let mut out = String::new();
        let (n, unit) = match *self {
            Duration::Day(x) => (x, 'd'),
            Duration::Week(x) => (x, 'w'),
            Duration::Month(x) => (x, 'm'),
            Duration::Year(x) => (x, 'y'),
        };
        push_signed(&mut out, n);
        out.push(unit);
        out
    }

    /// Parses the textual form; surrounding whitespace is ignored.
    pub fn parse(s: &str) -> (r: Result<Duration, ()>)
        ensures
            r matches Ok(d) ==> duration_of_text(s@) == Some(d),
            r is Err ==> duration_of_text(s@) is None,
    {
        let cs = chars_of(s);
        assert(cs@.subrange(0, cs@.len() as int) =~= s@);
        Self::parse_range(&cs, 0, cs.len())
    }

    /// Parses the textual form held in `s[lo..hi]`.
    pub fn parse_range(s: &Vec<char>, lo: usize, hi: usize) -> (r: Result<Duration, ()>)
        requires
            lo <= hi <= s@.len(),
        ensures
            r matches Ok(d) ==> duration_of_text(s@.subrange(lo as int, hi as int)) == Some(d),
            r is Err ==> duration_of_text(s@.subrange(lo as int, hi as int)) is None,
    {
        let ghost whole = s@.subrange(lo as int, hi as int);
        let (a, b) = trim_range(s, lo, hi);
        if a == b {
            return Err(());
        }
        let ghost t = s@.subrange(a as int, b as int);
        assert(t.drop_last() =~= s@.subrange(a as int, b - 1));
        assert(t.last() == s@[b - 1]);
        let n = match parse_signed(s, a, b - 1) {
            Some(n) => n,
            None => return Err(()),
        };
        let unit = s[b - 1];
        if unit == 'd' {
            Ok(Duration::Day(n))
        } else if unit == 'w' {
            Ok(Duration::Week(n))
        } else if unit == 'm' {
            Ok(Duration::Month(n))
        } else if unit == 'y' {
            Ok(Duration::Year(n))
        } else {
            Err(())
        }
    }
}

impl std::str::FromStr for Duration {
    type Err = ();

    fn from_str(s: &str) -> (r: Result<Duration, ()>)
        ensures
            r matches Ok(d) ==> duration_of_text(s@) == Some(d),
            r is Err ==> duration_of_text(s@) is None,
    {
        Duration::parse(s)
    }
}

} // verus!
