//! Calendar values and the rules they follow.

pub mod date;
pub mod datetime;
pub mod duration;
pub mod prelude;
pub mod text;
pub mod time_of_day;
pub mod util;


pub use date::Date;
pub use datetime::DateTime;
pub use duration::Duration;
pub use time_of_day::Time;
