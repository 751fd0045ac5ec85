//! Parse human-written durations such as `"7d 3m"` into a count of seconds.

mod adapters;
mod error;
pub mod laws;
pub mod parse;
mod unit;

pub use adapters::DurationParser;
pub use error::Error;
pub use parse::parse_secs;
pub use unit::Unit;
