//! Error kinds surfaced by the string-parsing entry points.

use vstd::prelude::*;
use vstd::string::StringExecFns;

verus! {

/// The reason a string was rejected by one of the parsing entry points.
///
/// The variants that carry a `String` hold the offending fragment of the
/// input, so a caller can report what was rejected.
#[derive(Debug, Clone, PartialEq, Eq)]
pub enum ParseError {
    BadFormat,
    BadAmount(String),
    BadSymbolCode(String),
    BadSymbol(String),
    BadPrecision(String),
    BadAsset(String),
    BadName(String),
}

impl ParseError {
    /// A human-readable description of the error: the kind's label,
    /// followed by the offending fragment where one was recorded.
    pub fn message(&self) -> (r: String)
        ensures
            match self {
                ParseError::BadFormat => r@ == "bad format"@,
                ParseError::BadAmount(s) => r@ == "bad amount: "@ + s@,
                ParseError::BadSymbolCode(s) => r@ == "bad symbol code: "@ + s@,
                ParseError::BadSymbol(s) => r@ == "bad symbol: "@ + s@,
                ParseError::BadPrecision(s) => r@ == "bad precision: "@ + s@,
                ParseError::BadAsset(s) => r@ == "bad asset: "@ + s@,
                ParseError::BadName(s) => r@ == "bad name: "@ + s@,
            },
    {
        match self {
            ParseError::BadFormat => String::from_str("bad format"),
            ParseError::BadAmount(s) => String::from_str("bad amount: ").concat(s.as_str()),
            ParseError::BadSymbolCode(s) => String::from_str("bad symbol code: ").concat(s.as_str()),
            ParseError::BadSymbol(s) => String::from_str("bad symbol: ").concat(s.as_str()),
            ParseError::BadPrecision(s) => String::from_str("bad precision: ").concat(s.as_str()),
            ParseError::BadAsset(s) => String::from_str("bad asset: ").concat(s.as_str()),
            ParseError::BadName(s) => String::from_str("bad name: ").concat(s.as_str()),
        }
    }
}

} // verus!
