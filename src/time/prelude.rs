//! The navigation capabilities that dates and date-times share, and the
//! accessors of a time of day.

pub use crate::time::date::Date;
pub use crate::time::datetime::DateTime;
pub use crate::time::duration::Duration;
pub use crate::time::time_of_day::Time;
use crate::time::duration::shifted;
use crate::time::util::resolve_fits;
use vstd::prelude::*;

verus! {

/// Calendar navigation over a value that carries a date. Every shifting
/// operation rolls out-of-range months and days over into a valid date; it
/// requires that every year passed through fits in a `u32`.
pub trait DateLike where Self: Sized {
    /// The (year, month, day) of the date this value carries.
    spec fn ymd(&self) -> (int, int, int);

    fn year(&self) -> u32;

    fn month(&self) -> u32;

    fn day(&self) -> u32;

    fn add_days(&self, days: i32) -> Self
        requires
            resolve_fits(self.ymd().0, self.ymd().1, self.ymd().2 + days),
    ;

    fn add_months(&self, months: i32) -> Self
        requires
            resolve_fits(self.ymd().0, self.ymd().1 + months, self.ymd().2),
    ;

    fn add_years(&self, years: i32) -> Self
        requires
            resolve_fits(self.ymd().0 + years, self.ymd().1, self.ymd().2),
    ;

    fn add_duration(&self, duration: Duration) -> Self
        requires
            resolve_fits(
                shifted(self.ymd(), duration).0,
                shifted(self.ymd(), duration).1,
                shifted(self.ymd(), duration).2,
            ),
    ;

    fn with_time(&self, time: Time) -> DateTime;

    fn next_day(&self) -> Self
        requires
            resolve_fits(self.ymd().0, self.ymd().1, self.ymd().2 + 1),
    ;

    fn prev_day(&self) -> Self
        requires
            resolve_fits(self.ymd().0, self.ymd().1, self.ymd().2 - 1),
    ;

    fn with_year(&self, year: u32) -> Option<Self>;

    fn with_month(&self, month: u32) -> Option<Self>;

    fn with_day(&self, day: u32) -> Option<Self>;

    fn prev_month(&self) -> Self
        requires
            resolve_fits(self.ymd().0, self.ymd().1 - 1, self.ymd().2),
    ;

    fn next_month(&self) -> Self
        requires
            resolve_fits(self.ymd().0, self.ymd().1 + 1, self.ymd().2),
    ;

    fn prev_year(&self) -> Self
        requires
            resolve_fits(self.ymd().0 - 1, self.ymd().1, self.ymd().2),
    ;

    fn next_year(&self) -> Self
        requires
            resolve_fits(self.ymd().0 + 1, self.ymd().1, self.ymd().2),
    ;

    fn month_begin(&self) -> Self;

    fn month_end(&self) -> Self;

    fn year_begin(&self) -> Self;

    fn year_end(&self) -> Self;
}

/// Accessors of a value that carries a time of day.
pub trait TimeLike {
    fn hour(&self) -> u32;

    fn minute(&self) -> u32;

    fn with_date(&self, date: Date) -> DateTime;
}

} // verus!
