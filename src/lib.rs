//! Entry tracking built on a small calendar engine: civil dates, times of
//! day, their combination, calendar offsets, and the textual forms of each.

pub mod entry;
pub mod store;
pub mod time;
