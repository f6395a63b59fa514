//! Errors of expiration date operations.

use vstd::prelude::*;

verus! {

#[verifier::external_type_specification]
#[verifier::external_body]
pub struct ExChronoParseError(chrono::ParseError);

#[verifier::external_type_specification]
#[verifier::external_body]
pub struct ExParseIntError(std::num::ParseIntError);

/// Error types for expiration date operations.
#[derive(Debug)]
pub enum ExpirationDateError {
    /// Failed to parse a string into an expiration date.
    ParseError(String),
    /// Failure during numeric or date conversion.
    ConversionError {
        /// The source type of the conversion.
        from_type: String,
        /// The target type of the conversion.
        to_type: String,
        /// The detailed reason for the failure.
        reason: String,
    },
    /// Provided datetime is invalid for the context.
    InvalidDateTime(String),
    /// Error from the underlying `positive::Positive` type.
    PositiveError(::positive::PositiveError),
    /// Error parsing dates with `chrono`.
    ChronoParseError(chrono::ParseError),
    /// Error parsing integers from strings.
    ParseIntError(std::num::ParseIntError),
    /// Numeric overflow during date or convention arithmetic.
    ArithmeticOverflow(String),
}

/// The text an error displays, for the kinds whose details are text of this
/// library; `None` for errors that wrap an outside error, whose text is that
/// error's own display.
pub open spec fn known_message(e: ExpirationDateError) -> Option<Seq<char>> {
    match e {
        ExpirationDateError::ParseError(s) => Some("parse error: "@ + s@),
        ExpirationDateError::ConversionError { from_type, to_type, reason } => Some(
            "conversion error from "@ + from_type@ + " to "@ + to_type@ + ": "@ + reason@,
        ),
        ExpirationDateError::InvalidDateTime(s) => Some("invalid datetime: "@ + s@),
        ExpirationDateError::ArithmeticOverflow(s) => Some("arithmetic overflow: "@ + s@),
        _ => None,
    }
}

impl ExpirationDateError {
    /// The text that the error displays: a prefix naming the kind, then its details.
    pub fn message(&self) -> (r: String)
        ensures
            known_message(*self) matches Some(m) ==> r@ == m,
            self is PositiveError ==> exists|t: Seq<char>| r@ == "positive error: "@ + t,
            self is ChronoParseError ==> exists|t: Seq<char>| r@ == "chrono parse error: "@ + t,
            self is ParseIntError ==> exists|t: Seq<char>| r@ == "parse int error: "@ + t,
    {
        match self {
            ExpirationDateError::ParseError(s) => String::from_str("parse error: ").concat(s.as_str()),
            ExpirationDateError::ConversionError { from_type, to_type, reason } => {
                String::from_str("conversion error from ").concat(from_type.as_str()).concat(" to ").concat(
                    to_type.as_str(),
                ).concat(": ").concat(reason.as_str())
            },
            ExpirationDateError::InvalidDateTime(s) => String::from_str("invalid datetime: ").concat(s.as_str()),
            ExpirationDateError::PositiveError(e) => {
                let details = e.to_string();
                let r = String::from_str("positive error: ").concat(details.as_str());
                assert(r@ == "positive error: "@ + details@);
                r
            },
            ExpirationDateError::ChronoParseError(e) => {
                let details = e.to_string();
                let r = String::from_str("chrono parse error: ").concat(details.as_str());
                assert(r@ == "chrono parse error: "@ + details@);
                r
            },
            ExpirationDateError::ParseIntError(e) => {
                let details = e.to_string();
                let r = String::from_str("parse int error: ").concat(details.as_str());
                assert(r@ == "parse int error: "@ + details@);
                r
            },
            ExpirationDateError::ArithmeticOverflow(s) => String::from_str("arithmetic overflow: ").concat(
                s.as_str(),
            ),
        }
    }
}

impl From<String> for ExpirationDateError {
    fn from(s: String) -> (r: ExpirationDateError) {
        ExpirationDateError::ParseError(s)
    }
}

impl vstd::std_specs::convert::FromSpecImpl<String> for ExpirationDateError {
    open spec fn obeys_from_spec() -> bool {
        true
    }

    open spec fn from_spec(s: String) -> ExpirationDateError {
        ExpirationDateError::ParseError(s)
    }
}

} // verus!
