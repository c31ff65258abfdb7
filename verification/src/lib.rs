//! A timezone-naive civil calendar/time library.
//!
//! An instant is a `Date`: (year, month, day, hour, minute, second).
//! Dates are built from a Unix timestamp or from the canonical text form
//! `<year>-<month>-<day>T<hour>:<minute>:<second>`, are totally ordered,
//! and support unit stepping with odometer-style carry into higher fields.

pub use date::Date;
pub use date::DateView;
pub use error::WBDLError;
pub use month::Month;
pub use month::Season;
pub use time::Day;
pub use time::Hour;
pub use time::Minute;
pub use time::Second;

mod date;
mod error;
pub mod laws;
mod month;
pub mod text;
mod time;
pub mod util;
