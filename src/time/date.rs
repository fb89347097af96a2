//! Civil dates, the rollover that normalises them, and their text form
//! `YYYY-MM-DD`.

use crate::time::datetime::DateTime;
use crate::time::duration::{duration_of_text, shifted, Duration};
use crate::time::prelude::DateLike;
use crate::time::text::{
    all_digits, chars_of, find_char, find_from, is_digit, lemma_find_from, lemma_padded_digits,
    lemma_trim_unchanged, padded, parse_unsigned, push_padded, range_is, trim, trim_range,
    unsigned_text,
};
use crate::time::time_of_day::Time;
use crate::time::util::{
    days_in_month, month_len, resolve, resolve_fits, valid_date, day_excess, day_past_28,
    month_excess, is_valid_date,
};
use std::cmp::Ordering;
use vstd::prelude::*;

verus! {

/// A valid calendar date.
#[derive(Debug, PartialEq, Eq, Clone, Copy, Structural, Ord)]
pub struct Date {
    year: u32,
    month: u32,
    day: u32,
}

impl View for Date {
    type V = (int, int, int);

    /// (year, month, day).
    closed spec fn view(&self) -> (int, int, int) {
        (self.year as int, self.month as int, self.day as int)
    }
}

/// The date that `(y, m, d)` rolls over to, if every year passed through fits.
pub open spec fn rolled(t: (int, int, int)) -> Option<(int, int, int)> {
    if resolve_fits(t.0, t.1, t.2) {
        Some(resolve(t.0, t.1, t.2))
    } else {
        None
    }
}

/// Three-way lexicographic comparison.
pub open spec fn compare_ymd(a: (int, int, int), b: (int, int, int)) -> Ordering {
    if a.0 < b.0 {
        Ordering::Less
    } else if a.0 > b.0 {
        Ordering::Greater
    } else if a.1 < b.1 {
        Ordering::Less
    } else if a.1 > b.1 {
        Ordering::Greater
    } else if a.2 < b.2 {
        Ordering::Less
    } else if a.2 > b.2 {
        Ordering::Greater
    } else {
        Ordering::Equal
    }
}

/// `YYYY-MM-DD`, each field zero-padded.
pub open spec fn date_text(d: (int, int, int)) -> Seq<char> {
    padded(d.0 as nat, 4) + seq!['-'] + padded(d.1 as nat, 2) + seq!['-'] + padded(d.2 as nat, 2)
}

/// The `year-month-day` form: exactly two `-` split the text into three
/// parts, each trimmed and read as an unsigned decimal that fits in a `u32`,
/// which must form a valid date.
pub open spec fn ymd_of_text(t: Seq<char>) -> Option<(int, int, int)> {
    let i1 = find_from(t, '-', 0);
    let r0 = t.subrange(i1 + 1, t.len() as int);
    let i2 = find_from(r0, '-', 0);
    let r1 = r0.subrange(i2 + 1, r0.len() as int);
    let i3 = find_from(r1, '-', 0);
    if i1 >= t.len() || i2 >= r0.len() || i3 < r1.len() {
        None
    } else {
        match (
            unsigned_text(trim(t.subrange(0, i1))),
            unsigned_text(trim(r0.subrange(0, i2))),
            unsigned_text(trim(r1.subrange(0, i3))),
        ) {
            (Some(y), Some(m), Some(d)) => if y <= u32::MAX && m <= u32::MAX && d <= u32::MAX
                && valid_date(y, m, d) {
                Some((y, m, d))
            } else {
                None
            },
            _ => None,
        }
    }
}

/// What the text `s` denotes on the day `today`: after trimming, one of the
/// words `today`, `yesterday`, `tomorrow`, an offset from today, or a
/// `year-month-day` date.
pub open spec fn date_of_text(s: Seq<char>, today: (int, int, int)) -> Option<(int, int, int)> {
    let t = trim(s);
    if t == "today"@ {
        Some(today)
    } else if t == "yesterday"@ {
        rolled((today.0, today.1, today.2 - 1))
    } else if t == "tomorrow"@ {
        rolled((today.0, today.1, today.2 + 1))
    } else if let Some(dur) = duration_of_text(t) {
        rolled(shifted(today, dur))
    } else {
        ymd_of_text(t)
    }
}

/// A padded field: digits only, with no sign and no whitespace at either end.
proof fn lemma_field(n: nat, width: nat)
    ensures
        padded(n, width).len() > 0,
        all_digits(padded(n, width)),
        trim(padded(n, width)) == padded(n, width),
        unsigned_text(padded(n, width)) == Some(n as int),
        find_from(padded(n, width), '-', 0) == padded(n, width).len(),
{
    let p = padded(n, width);
    lemma_padded_digits(n, width);
    assert(is_digit(p[0]));
    assert(is_digit(p[p.len() - 1]));
    lemma_trim_unchanged(p);
    lemma_find_from(p, '-', 0, p.len() as int);
}

/// Every valid date, written in its text form, reads back as itself,
/// whatever day is taken as today.
pub proof fn lemma_date_round_trip(year: u32, month: u32, day: u32, today: (int, int, int))
    requires
        valid_date(year as int, month as int, day as int),
    ensures
        date_of_text(date_text((year as int, month as int, day as int)), today) == Some(
            (year as int, month as int, day as int),
        ),
{
    let v = (year as int, month as int, day as int);
    let py = padded(year as nat, 4);
    let pm = padded(month as nat, 2);
    let pd = padded(day as nat, 2);
    let t = date_text(v);
    lemma_field(year as nat, 4);
    lemma_field(month as nat, 2);
    lemma_field(day as nat, 2);
    assert(t[0] == py[0]);
    assert(t.last() == pd[pd.len() - 1]);
    assert(is_digit(t[0]));
    assert(is_digit(t.last()));
    lemma_trim_unchanged(t);
    reveal_strlit("today");
    reveal_strlit("yesterday");
    reveal_strlit("tomorrow");
    assert(t != "today"@) by {
        assert("today"@[0] == 't');
    }
    assert(t != "yesterday"@) by {
        assert("yesterday"@[0] == 'y');
    }
    assert(t != "tomorrow"@) by {
        assert("tomorrow"@[0] == 't');
    }
    assert(duration_of_text(t) is None);
    let i1 = py.len() as int;
    assert forall|k: int| 0 <= k < i1 implies t[k] != '-' by {
        assert(t[k] == py[k]);
        assert(is_digit(py[k]));
    }
    lemma_find_from(t, '-', 0, i1);
    let r0 = t.subrange(i1 + 1, t.len() as int);
    assert(r0 =~= pm + seq!['-'] + pd);
    let i2 = pm.len() as int;
    assert forall|k: int| 0 <= k < i2 implies r0[k] != '-' by {
        assert(r0[k] == pm[k]);
        assert(is_digit(pm[k]));
    }
    lemma_find_from(r0, '-', 0, i2);
    let r1 = r0.subrange(i2 + 1, r0.len() as int);
    assert(r1 =~= pd);
    assert(t.subrange(0, i1) =~= py);
    assert(r0.subrange(0, i2) =~= pm);
    assert(r1.subrange(0, r1.len() as int) =~= pd);
}

/// The words `yesterday` and `tomorrow` name the day before and after today.
pub proof fn lemma_relative_words(today: Date)
    ensures
        date_of_text("yesterday"@, today@) == rolled((today@.0, today@.1, today@.2 - 1)),
        date_of_text("tomorrow"@, today@) == rolled((today@.0, today@.1, today@.2 + 1)),
{
    reveal_strlit("today");
    reveal_strlit("yesterday");
    reveal_strlit("tomorrow");
    lemma_trim_unchanged("yesterday"@);
    lemma_trim_unchanged("tomorrow"@);
    assert("yesterday"@ != "today"@) by {
        assert("yesterday"@.len() != "today"@.len());
    }
    assert("tomorrow"@ != "today"@) by {
        assert("tomorrow"@.len() != "today"@.len());
    }
    assert("tomorrow"@ != "yesterday"@) by {
        assert("tomorrow"@.len() != "yesterday"@.len());
    }
}

impl Date {
    #[verifier::type_invariant]
    spec fn inv(&self) -> bool {
        valid_date(self.year as int, self.month as int, self.day as int)
    }

    /// Makes known to the caller that this date is a valid calendar date;
    /// it does nothing at run time.
    pub fn lemma_valid(&self)
        ensures
            valid_date(self@.0, self@.1, self@.2),
    {
        proof {
            use_type_invariant(self);
        }
    }

    /// Dates with the same (year, month, day) are equal.
    pub proof fn lemma_view_eq(a: Date, b: Date)
        ensures
            a@ == b@ ==> a == b,
    {
    }

    /// The date with the given fields, if they form a valid date.
    pub fn from_ymd(year: u32, month: u32, day: u32) -> (r: Option<Date>)
        ensures
            r is Some <==> valid_date(year as int, month as int, day as int),
            r matches Some(d) ==> d@ == (year as int, month as int, day as int),
    {
        if is_valid_date(year, month, day) {
            Some(Date { year, month, day })
        } else {
            None
        }
    }

    /// Rolls `(year, month, day)` over into a valid date, or `None` if a year
    /// passed through leaves the range of `u32`.
    fn resolve_wide(year: u32, month: i64, day: i64) -> (r: Option<Date>)
        requires
            -0x1_0000_0000_0000 <= month <= 0x1_0000_0000_0000,
            -0x1_0000_0000_0000 <= day <= 0x1_0000_0000_0000,
        ensures
            r is Some <==> resolve_fits(year as int, month as int, day as int),
            r matches Some(d) ==> d@ == resolve(year as int, month as int, day as int),
    {
        let mut y: u32 = year;
        let mut m: i64 = month;
        let mut d: i64 = day;
        loop
            invariant
                -0x1_0000_0000_0000 <= m <= 0x1_0000_0000_0000,
                -0x1_0000_0000_0000 <= d <= 0x1_0000_0000_0000,
                resolve_fits(y as int, m as int, d as int) == resolve_fits(
                    year as int,
                    month as int,
                    day as int,
                ),
                resolve(y as int, m as int, d as int) == resolve(
                    year as int,
                    month as int,
                    day as int,
                ),
            decreases day_excess(d as int), day_past_28(d as int), month_excess(m as int),
        {
            if m < 1 {
                if y == 0 {
                    proof {
                        reveal_with_fuel(resolve_fits, 2);
                    }
                    return None;
                }
                y = y - 1;
                m = m + 12;
            } else if m > 12 {
                if y == u32::MAX {
                    proof {
                        reveal_with_fuel(resolve_fits, 2);
                    }
                    return None;
                }
                y = y + 1;
                m = m - 12;
            } else {
                let len = month_len(y, m as u32) as i64;
                if d < 1 {
                    let prev: i64 = if m == 1 {
                        31
                    } else {
                        month_len(y, (m - 1) as u32) as i64
                    };
                    m = m - 1;
                    d = d + prev;
                } else if d > len {
                    m = m + 1;
                    d = d - len;
                } else {
                    return Some(Date { year: y, month: m as u32, day: d as u32 });
                }
            }
        }
    }

    /// The valid date that `(year, month, day)` rolls over to: months outside
    /// 1 to 12 carry into the year, then days outside the month carry into
    /// the month, one month at a time.
    pub fn resolve_date(year: u32, month: i32, day: i32) -> (r: Date)
        requires
            resolve_fits(year as int, month as int, day as int),
        ensures
            r@ == resolve(year as int, month as int, day as int),
    {
        Self::resolve_wide(year, month as i64, day as i64).unwrap()
    }

    /// This date moved by `duration`, or `None` if a year passed through
    /// leaves the range of `u32`.
    pub fn checked_add_duration(&self, duration: Duration) -> (r: Option<Date>)
        ensures
            r is Some <==> resolve_fits(
                shifted(self@, duration).0,
                shifted(self@, duration).1,
                shifted(self@, duration).2,
            ),
            r matches Some(d) ==> d@ == resolve(
                shifted(self@, duration).0,
                shifted(self@, duration).1,
                shifted(self@, duration).2,
            ),
    {
        proof {
            use_type_invariant(self);
        }
        let m = self.month as i64;
        let d = self.day as i64;
        match duration {
            Duration::Day(x) => Self::resolve_wide(self.year, m, d + x as i64),
            Duration::Week(x) => Self::resolve_wide(self.year, m, d + 2 * (x as i64)),
            Duration::Month(x) => Self::resolve_wide(self.year, m + x as i64, d),
            Duration::Year(x) => {
                let y = self.year as i64 + x as i64;
                if y < 0 || y > u32::MAX as i64 {
                    None
                } else {
                    Self::resolve_wide(y as u32, m, d)
                }
            },
        }
    }

    /// The text form `YYYY-MM-DD`.
    pub fn to_string(&self) -> (r: String)
        ensures
            r@ == date_text(self@),
    {
        let mut out = String::new();
        push_padded(&mut out, self.year, 4);
        out.push('-');
        push_padded(&mut out, self.month, 2);
        out.push('-');
        push_padded(&mut out, self.day, 2);
        assert(out@ =~= date_text(self@));
        out
    }

    /// Parses `s` with `today` as the current date.
    pub fn parse_with_today(s: &str, today: Date) -> (r: Result<Date, ()>)
        ensures
            r matches Ok(d) ==> date_of_text(s@, today@) == Some(d@),
            r is Err ==> date_of_text(s@, today@) is None,
    {
        let cs = chars_of(s);
        assert(cs@.subrange(0, cs@.len() as int) =~= s@);
        Self::parse_range(&cs, 0, cs.len(), today)
    }

    /// Parses `s[lo..hi]` with `today` as the current date.
    pub fn parse_range(s: &Vec<char>, lo: usize, hi: usize, today: Date) -> (r: Result<Date, ()>)
        requires
            lo <= hi <= s@.len(),
        ensures
            r matches Ok(d) ==> date_of_text(s@.subrange(lo as int, hi as int), today@) == Some(
                d@,
            ),
            r is Err ==> date_of_text(s@.subrange(lo as int, hi as int), today@) is None,
    {
        let (a, b) = trim_range(s, lo, hi);
        let ghost t = s@.subrange(a as int, b as int);
        if range_is(s, a, b, "today") {
            return Ok(today);
        }
        if range_is(s, a, b, "yesterday") {
            return match today.checked_add_duration(Duration::Day(-1)) {
                Some(d) => Ok(d),
                None => Err(()),
            };
        }
        if range_is(s, a, b, "tomorrow") {
            return match today.checked_add_duration(Duration::Day(1)) {
                Some(d) => Ok(d),
                None => Err(()),
            };
        }
        if let Ok(dur) = Duration::parse_range(s, a, b) {
            return match today.checked_add_duration(dur) {
                Some(d) => Ok(d),
                None => Err(()),
            };
        }
        let i1 = find_char(s, a, b, '-');
        if i1 == b {
            return Err(());
        }
        let ghost r0 = t.subrange(i1 - a + 1, t.len() as int);
        assert(r0 =~= s@.subrange(i1 + 1, b as int));
        let i2 = find_char(s, i1 + 1, b, '-');
        if i2 == b {
            return Err(());
        }
        let ghost r1 = r0.subrange(i2 - i1, r0.len() as int);
        assert(r1 =~= s@.subrange(i2 + 1, b as int));
        let i3 = find_char(s, i2 + 1, b, '-');
        if i3 != b {
            return Err(());
        }
        assert(t.subrange(0, i1 - a) =~= s@.subrange(a as int, i1 as int));
        assert(r0.subrange(0, i2 - i1 - 1) =~= s@.subrange(i1 + 1, i2 as int));
        assert(r1.subrange(0, i3 - i2 - 1) =~= s@.subrange(i2 + 1, i3 as int));
        let (ya, yb) = trim_range(s, a, i1);
        let (ma, mb) = trim_range(s, i1 + 1, i2);
        let (da, db) = trim_range(s, i2 + 1, i3);
        let year = parse_unsigned(s, ya, yb, u32::MAX);
        let month = parse_unsigned(s, ma, mb, u32::MAX);
        let day = parse_unsigned(s, da, db, u32::MAX);
        match (year, month, day) {
            (Some(y), Some(m), Some(d)) => match Self::from_ymd(y, m, d) {
                Some(date) => Ok(date),
                None => Err(()),
            },
            _ => Err(()),
        }
    }
}

impl DateLike for Date {
    open spec fn ymd(&self) -> (int, int, int) {
        self@
    }

    fn year(&self) -> (r: u32)
        ensures
            r == self@.0,
    {
        self.year
    }

    fn month(&self) -> (r: u32)
        ensures
            r == self@.1,
    {
        self.month
    }

    fn day(&self) -> (r: u32)
        ensures
            r == self@.2,
    {
        self.day
    }

    fn add_days(&self, days: i32) -> (r: Date)
        ensures
            r@ == resolve(self@.0, self@.1, self@.2 + days),
    {
        self.checked_add_duration(Duration::Day(days)).unwrap()
    }

    fn add_months(&self, months: i32) -> (r: Date)
        ensures
            r@ == resolve(self@.0, self@.1 + months, self@.2),
    {
        self.checked_add_duration(Duration::Month(months)).unwrap()
    }

    fn add_years(&self, years: i32) -> (r: Date)
        ensures
            r@ == resolve(self@.0 + years, self@.1, self@.2),
    {
        self.checked_add_duration(Duration::Year(years)).unwrap()
    }

    fn add_duration(&self, duration: Duration) -> (r: Date)
        ensures
            r@ == resolve(
                shifted(self@, duration).0,
                shifted(self@, duration).1,
                shifted(self@, duration).2,
            ),
    {
        self.checked_add_duration(duration).unwrap()
    }

    fn with_time(&self, time: Time) -> (r: DateTime)
        ensures
            r@ == (self@, time@),
    {
        DateTime::new(*self, time)
    }

    fn next_day(&self) -> (r: Date)
        ensures
            r@ == resolve(self@.0, self@.1, self@.2 + 1),
    {
        self.add_days(1)
    }

    fn prev_day(&self) -> (r: Date)
        ensures
            r@ == resolve(self@.0, self@.1, self@.2 - 1),
    {
        self.add_days(-1)
    }

    fn with_year(&self, year: u32) -> (r: Option<Date>)
        ensures
            r is Some <==> valid_date(year as int, self@.1, self@.2),
            r matches Some(d) ==> d@ == (year as int, self@.1, self@.2),
    {
        Self::from_ymd(year, self.month, self.day)
    }

    fn with_month(&self, month: u32) -> (r: Option<Date>)
        ensures
            r is Some <==> valid_date(self@.0, month as int, self@.2),
            r matches Some(d) ==> d@ == (self@.0, month as int, self@.2),
    {
        Self::from_ymd(self.year, month, self.day)
    }

    fn with_day(&self, day: u32) -> (r: Option<Date>)
        ensures
            r is Some <==> valid_date(self@.0, self@.1, day as int),
            r matches Some(d) ==> d@ == (self@.0, self@.1, day as int),
    {
        Self::from_ymd(self.year, self.month, day)
    }

    fn prev_month(&self) -> (r: Date)
        ensures
            r@ == resolve(self@.0, self@.1 - 1, self@.2),
    {
        self.add_months(-1)
    }

    fn next_month(&self) -> (r: Date)
        ensures
            r@ == resolve(self@.0, self@.1 + 1, self@.2),
    {
        self.add_months(1)
    }

    fn prev_year(&self) -> (r: Date)
        ensures
            r@ == resolve(self@.0 - 1, self@.1, self@.2),
    {
        self.add_years(-1)
    }

    fn next_year(&self) -> (r: Date)
        ensures
            r@ == resolve(self@.0 + 1, self@.1, self@.2),
    {
        self.add_years(1)
    }

    fn month_begin(&self) -> (r: Date)
        ensures
            r@ == (self@.0, self@.1, 1int),
    {
        proof {
            use_type_invariant(self);
        }
        Date { year: self.year, month: self.month, day: 1 }
    }

    fn month_end(&self) -> (r: Date)
        ensures
            r@ == (self@.0, self@.1, days_in_month(self@.0, self@.1)),
    {
        proof {
            use_type_invariant(self);
        }
        Date { year: self.year, month: self.month, day: month_len(self.year, self.month) }
    }

    fn year_begin(&self) -> (r: Date)
        ensures
            r@ == (self@.0, 1int, 1int),
    {
        Date { year: self.year, month: 1, day: 1 }
    }

    fn year_end(&self) -> (r: Date)
        ensures
            r@ == (self@.0, 12int, 31int),
    {
        Date { year: self.year, month: 12, day: 31 }
    }
}

impl PartialOrd for Date {
    fn partial_cmp(&self, other: &Date) -> (r: Option<Ordering>)
        ensures
            r == Some(compare_ymd(self@, other@)),
    {
        if self.year != other.year {
            if self.year < other.year {
                Some(Ordering::Less)
            } else {
                Some(Ordering::Greater)
            }
        } else if self.month != other.month {
            if self.month < other.month {
                Some(Ordering::Less)
            } else {
                Some(Ordering::Greater)
            }
        } else if self.day < other.day {
            Some(Ordering::Less)
        } else if self.day > other.day {
            Some(Ordering::Greater)
        } else {
            Some(Ordering::Equal)
        }
    }
}

impl vstd::std_specs::cmp::PartialOrdSpecImpl for Date {
    open spec fn obeys_partial_cmp_spec() -> bool {
        true
    }

    open spec fn partial_cmp_spec(&self, other: &Date) -> Option<Ordering> {
        Some(compare_ymd(self@, other@))
    }
}

impl std::str::FromStr for Date {
    type Err = ();

    /// Parses `s` with the clock's current date as today.
    fn from_str(s: &str) -> (r: Result<Date, ()>)
        ensures
            r matches Ok(d) ==> exists|t: (int, int, int)|
                valid_date(t.0, t.1, t.2) && #[trigger] date_of_text(s@, t) == Some(d@),
    {
        match crate::time::util::today() {
            Some(today) => {
                let r = Date::parse_with_today(s, today);
                proof {
                    if let Ok(d) = r {
                        assert(date_of_text(s@, today@) == Some(d@));
                    }
                }
                r
            },
            None => Err(()),
        }
    }
}

} // verus!
