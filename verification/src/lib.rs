//! Verified core of a library for financial instrument expiration dates:
//! expirations given as a number of days or as an absolute UTC datetime, their
//! resolution to a datetime, day count conventions, parsing from text, the
//! order of day counts, and the decisions of reading the serialized form.

pub mod calendar;
pub mod conventions;
pub mod datetime;
pub mod decimal;
pub mod error;
pub mod expiration;
pub mod ordering;
pub mod parser;
pub mod wire;

pub use conventions::{Actual360, Actual365Fixed, Thirty360US};
pub use datetime::UtcDateTime;
pub use decimal::{DecimalValue, PositiveDecimal};
pub use error::ExpirationDateError;
pub use expiration::{ExpirationDate, TimeRemaining};
