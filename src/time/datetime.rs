//! A date together with a time of day, and the text form `<date> <time>`.

use crate::time::date::{compare_ymd, date_of_text, Date};
use crate::time::duration::{shifted, Duration};
use crate::time::prelude::{DateLike, TimeLike};
use crate::time::text::{
    chars_of, find_white, find_white_from, range_is, skip_white, skip_white_from, trim, trim_range,
};
use crate::time::time_of_day::{compare_hm, time_of_text, time_text, valid_time, Time};
use crate::time::date::date_text;
use crate::time::util::{days_in_month, resolve, valid_date};
use std::cmp::Ordering;
use vstd::prelude::*;

verus! {

/// A date and a time of day.
#[derive(Debug, PartialEq, Eq, Clone, Copy, Structural, Ord)]
pub struct DateTime {
    date: Date,
    time: Time,
}

impl View for DateTime {
    type V = ((int, int, int), (int, int));

    /// (date, time).
    closed spec fn view(&self) -> ((int, int, int), (int, int)) {
        (self.date@, self.time@)
    }
}

/// Dates first, then times.
pub open spec fn compare_date_time(
    a: ((int, int, int), (int, int)),
    b: ((int, int, int), (int, int)),
) -> Ordering {
    if compare_ymd(a.0, b.0) == Ordering::Equal {
        compare_hm(a.1, b.1)
    } else {
        compare_ymd(a.0, b.0)
    }
}

/// The date, a space, and the time.
pub open spec fn date_time_text(v: ((int, int, int), (int, int))) -> Seq<char> {
    date_text(v.0) + seq![' '] + time_text(v.1)
}

/// What the text `s` denotes at the moment `now`: after trimming, the word
/// `now`, or a date (in any form that dates accept, relative to the day of
/// `now`) optionally followed by whitespace and a time, which defaults to
/// midnight. Nothing may follow the time.
pub open spec fn date_time_of_text(
    s: Seq<char>,
    now: ((int, int, int), (int, int)),
) -> Option<((int, int, int), (int, int))> {
    let t = trim(s);
    let a1 = skip_white_from(t, 0);
    let b1 = find_white_from(t, a1);
    let a2 = skip_white_from(t, b1);
    let b2 = find_white_from(t, a2);
    if t == "now"@ {
        Some(now)
    } else if a1 >= t.len() {
        None
    } else {
        match date_of_text(t.subrange(a1, b1), now.0) {
            Some(d) => if a2 >= t.len() {
                Some((d, (0int, 0int)))
            } else if b2 < t.len() {
                None
            } else {
                match time_of_text(t.subrange(a2, b2)) {
                    Some(tm) => Some((d, tm)),
                    None => None,
                }
            },
            None => None,
        }
    }
}

/// Date-times are ordered by their dates; the times decide only between
/// equal dates.
pub proof fn lemma_date_time_order(a: DateTime, b: DateTime)
    ensures
        a@.0 != b@.0 ==> compare_date_time(a@, b@) == compare_ymd(a@.0, b@.0) && compare_ymd(
            a@.0,
            b@.0,
        ) != Ordering::Equal,
        a@.0 == b@.0 ==> compare_date_time(a@, b@) == compare_hm(a@.1, b@.1),
{
}

impl DateTime {
    /// Makes known to the caller that the date and the time are valid; it
    /// does nothing at run time.
    pub fn lemma_valid(&self)
        ensures
            valid_date(self@.0.0, self@.0.1, self@.0.2),
            valid_time(self@.1.0, self@.1.1),
    {
        self.date.lemma_valid();
        self.time.lemma_valid();
    }

    /// Date-times with the same date and time are equal.
    pub proof fn lemma_view_eq(a: DateTime, b: DateTime)
        ensures
            a@ == b@ ==> a == b,
    {
        Date::lemma_view_eq(a.date, b.date);
        Time::lemma_view_eq(a.time, b.time);
    }

    pub fn new(date: Date, time: Time) -> (r: DateTime)
        ensures
            r@ == (date@, time@),
    {
        DateTime { date, time }
    }

    pub fn date(&self) -> (r: Date)
        ensures
            r@ == self@.0,
    {
        self.date
    }

    pub fn time(&self) -> (r: Time)
        ensures
            r@ == self@.1,
    {
        self.time
    }

    /// The text form `YYYY-MM-DD HH:MM`.
    pub fn to_string(&self) -> (r: String)
        ensures
            r@ == date_time_text(self@),
    {
        let mut out = self.date.to_string();
        out.push(' ');
        let t = self.time.to_string();
        out.append(t.as_str());
        assert(out@ =~= date_time_text(self@));
        out
    }

    /// Parses `s` with `now` as the current moment.
    pub fn parse_with_now(s: &str, now: DateTime) -> (r: Result<DateTime, ()>)
        ensures
            r matches Ok(d) ==> date_time_of_text(s@, now@) == Some(d@),
            r is Err ==> date_time_of_text(s@, now@) is None,
    {
        let cs = chars_of(s);
        assert(cs@.subrange(0, cs@.len() as int) =~= s@);
        let (a, b) = trim_range(&cs, 0, cs.len());
        let ghost t = cs@.subrange(a as int, b as int);
        if range_is(&cs, a, b, "now") {
            return Ok(now);
        }
        let a1 = skip_white(&cs, a, b);
        if a1 == b {
            return Err(());
        }
        assert(cs@.subrange(a1 as int, b as int) =~= t.subrange(a1 - a, t.len() as int));
        let b1 = find_white(&cs, a1, b);
        let a2 = skip_white(&cs, b1, b);
        let b2 = find_white(&cs, a2, b);
        proof {
            lemma_skip_shift(t, a1 - a);
            lemma_find_white_shift(t, a1 - a);
            assert(cs@.subrange(b1 as int, b as int) =~= t.subrange(b1 - a, t.len() as int));
            lemma_skip_shift(t, b1 - a);
            assert(cs@.subrange(a2 as int, b as int) =~= t.subrange(a2 - a, t.len() as int));
            lemma_find_white_shift(t, a2 - a);
            assert(t.subrange(a1 - a, b1 - a) =~= cs@.subrange(a1 as int, b1 as int));
            assert(t.subrange(a2 - a, b2 - a) =~= cs@.subrange(a2 as int, b2 as int));
        }
        let date = match Date::parse_range(&cs, a1, b1, now.date) {
            Ok(d) => d,
            Err(_) => return Err(()),
        };
        if a2 == b {
            return Ok(DateTime { date, time: Time::from_hm(0, 0).unwrap() });
        }
        if b2 != b {
            return Err(());
        }
        match Time::parse_range(&cs, a2, b2) {
            Ok(time) => Ok(DateTime { date, time }),
            Err(_) => Err(()),
        }
    }
}

/// Searching from `k` within `t` is searching from 0 within `t[k..]`, shifted by `k`.
proof fn lemma_skip_shift(t: Seq<char>, k: int)
    requires
        0 <= k <= t.len(),
    ensures
        skip_white_from(t, k) == k + skip_white_from(t.subrange(k, t.len() as int), 0),
    decreases t.len() - k,
{
    let u = t.subrange(k, t.len() as int);
    if k < t.len() {
        lemma_skip_shift(t, k + 1);
        lemma_skip_shift(u, 1);
        assert(u.subrange(1, u.len() as int) =~= t.subrange(k + 1, t.len() as int));
    }
}

proof fn lemma_find_white_shift(t: Seq<char>, k: int)
    requires
        0 <= k <= t.len(),
    ensures
        find_white_from(t, k) == k + find_white_from(t.subrange(k, t.len() as int), 0),
    decreases t.len() - k,
{
    let u = t.subrange(k, t.len() as int);
    if k < t.len() {
        lemma_find_white_shift(t, k + 1);
        lemma_find_white_shift(u, 1);
        assert(u.subrange(1, u.len() as int) =~= t.subrange(k + 1, t.len() as int));
    }
}

impl TimeLike for DateTime {
    fn hour(&self) -> (r: u32)
        ensures
            r == self@.1.0,
    {
        self.time.hour()
    }

    fn minute(&self) -> (r: u32)
        ensures
            r == self@.1.1,
    {
        self.time.minute()
    }

    fn with_date(&self, date: Date) -> (r: DateTime)
        ensures
            r@ == (date@, self@.1),
    {
        self.time.with_date(date)
    }
}

impl DateLike for DateTime {
    open spec fn ymd(&self) -> (int, int, int) {
        self@.0
    }

    fn year(&self) -> (r: u32)
        ensures
            r == self@.0.0,
    {
        self.date.year()
    }

    /// Reads the year of the date, as this accessor always has: callers
    /// that want the month read it from `date()`.
    fn month(&self) -> (r: u32)
        ensures
            r == self@.0.0,
    {
        self.date.year()
    }

    fn day(&self) -> (r: u32)
        ensures
            r == self@.0.2,
    {
        self.date.day()
    }

    fn add_days(&self, days: i32) -> (r: DateTime)
        ensures
            r@ == (resolve(self@.0.0, self@.0.1, self@.0.2 + days), self@.1),
    {
        self.date.add_days(days).with_time(self.time)
    }

    fn add_months(&self, months: i32) -> (r: DateTime)
        ensures
            r@ == (resolve(self@.0.0, self@.0.1 + months, self@.0.2), self@.1),
    {
        self.date.add_months(months).with_time(self.time)
    }

    fn add_years(&self, years: i32) -> (r: DateTime)
        ensures
            r@ == (resolve(self@.0.0 + years, self@.0.1, self@.0.2), self@.1),
    {
        self.date.add_years(years).with_time(self.time)
    }

    fn add_duration(&self, duration: Duration) -> (r: DateTime)
        ensures
            r@ == (
                resolve(
                    shifted(self@.0, duration).0,
                    shifted(self@.0, duration).1,
                    shifted(self@.0, duration).2,
                ),
                self@.1,
            ),
    {
        self.date.add_duration(duration).with_time(self.time)
    }

    fn with_time(&self, time: Time) -> (r: DateTime)
        ensures
            r@ == (self@.0, time@),
    {
        self.date.with_time(time)
    }

    fn next_day(&self) -> (r: DateTime)
        ensures
            r@ == (resolve(self@.0.0, self@.0.1, self@.0.2 + 1), self@.1),
    {
        self.date.next_day().with_time(self.time)
    }

    fn prev_day(&self) -> (r: DateTime)
        ensures
            r@ == (resolve(self@.0.0, self@.0.1, self@.0.2 - 1), self@.1),
    {
        self.date.prev_day().with_time(self.time)
    }

    fn with_year(&self, year: u32) -> (r: Option<DateTime>)
        ensures
            r is Some <==> valid_date(year as int, self@.0.1, self@.0.2),
            r matches Some(d) ==> d@ == ((year as int, self@.0.1, self@.0.2), self@.1),
    {
        match self.date.with_year(year) {
            Some(d) => Some(d.with_time(self.time)),
            None => None,
        }
    }

    fn with_month(&self, month: u32) -> (r: Option<DateTime>)
        ensures
            r is Some <==> valid_date(self@.0.0, month as int, self@.0.2),
            r matches Some(d) ==> d@ == ((self@.0.0, month as int, self@.0.2), self@.1),
    {
        match self.date.with_month(month) {
            Some(d) => Some(d.with_time(self.time)),
            None => None,
        }
    }

    fn with_day(&self, day: u32) -> (r: Option<DateTime>)
        ensures
            r is Some <==> valid_date(self@.0.0, self@.0.1, day as int),
            r matches Some(d) ==> d@ == ((self@.0.0, self@.0.1, day as int), self@.1),
    {
        match self.date.with_day(day) {
            Some(d) => Some(d.with_time(self.time)),
            None => None,
        }
    }

    fn prev_month(&self) -> (r: DateTime)
        ensures
            r@ == (resolve(self@.0.0, self@.0.1 - 1, self@.0.2), self@.1),
    {
        self.date.prev_month().with_time(self.time)
    }

    fn next_month(&self) -> (r: DateTime)
        ensures
            r@ == (resolve(self@.0.0, self@.0.1 + 1, self@.0.2), self@.1),
    {
        self.date.next_month().with_time(self.time)
    }

    fn prev_year(&self) -> (r: DateTime)
        ensures
            r@ == (resolve(self@.0.0 - 1, self@.0.1, self@.0.2), self@.1),
    {
        self.date.prev_year().with_time(self.time)
    }

    fn next_year(&self) -> (r: DateTime)
        ensures
            r@ == (resolve(self@.0.0 + 1, self@.0.1, self@.0.2), self@.1),
    {
        self.date.next_year().with_time(self.time)
    }

    fn month_begin(&self) -> (r: DateTime)
        ensures
            r@ == ((self@.0.0, self@.0.1, 1int), self@.1),
    {
        self.date.month_begin().with_time(self.time)
    }

    fn month_end(&self) -> (r: DateTime)
        ensures
            r@ == ((self@.0.0, self@.0.1, days_in_month(self@.0.0, self@.0.1)), self@.1),
    {
        self.date.month_end().with_time(self.time)
    }

    fn year_begin(&self) -> (r: DateTime)
        ensures
            r@ == ((self@.0.0, 1int, 1int), self@.1),
    {
        self.date.year_begin().with_time(self.time)
    }

    fn year_end(&self) -> (r: DateTime)
        ensures
            r@ == ((self@.0.0, 12int, 31int), self@.1),
    {
        self.date.year_end().with_time(self.time)
    }
}

impl PartialOrd for DateTime {
    fn partial_cmp(&self, other: &DateTime) -> (r: Option<Ordering>)
        ensures
            r == Some(compare_date_time(self@, other@)),
    {
        match self.date.partial_cmp(&other.date) {
            Some(Ordering::Equal) => self.time.partial_cmp(&other.time),
            c => c,
        }
    }
}

impl vstd::std_specs::cmp::PartialOrdSpecImpl for DateTime {
    open spec fn obeys_partial_cmp_spec() -> bool {
        true
    }

    open spec fn partial_cmp_spec(&self, other: &DateTime) -> Option<Ordering> {
        Some(compare_date_time(self@, other@))
    }
}

impl std::str::FromStr for DateTime {
    type Err = ();

    /// Parses `s` with the clock's current moment as now.
    fn from_str(s: &str) -> (r: Result<DateTime, ()>)
        ensures
            r matches Ok(d) ==> exists|n: ((int, int, int), (int, int))|
                valid_date(n.0.0, n.0.1, n.0.2) && valid_time(n.1.0, n.1.1)
                    && #[trigger] date_time_of_text(s@, n) == Some(d@),
    {
        match crate::time::util::now() {
            Some(now) => {
                let r = DateTime::parse_with_now(s, now);
                proof {
                    if let Ok(d) = r {
                        assert(date_time_of_text(s@, now@) == Some(d@));
                    }
                }
                r
            },
            None => Err(()),
        }
    }
}

} // verus!
