//! Compact binary encodings for ledger identifiers and checked fixed-point
//! currency arithmetic.
//!
//! The crate packs human-readable account names ([`Name`]), currency tickers
//! ([`SymbolCode`]), tickers with a decimal precision ([`Symbol`]) and signed
//! fixed-point quantities ([`Asset`]) into 64-bit values, together with the
//! composite [`ExtendedSymbol`] / [`ExtendedAsset`] pairs and plain time
//! wrappers ([`Microseconds`], [`TimePoint`], [`TimePointSec`]).
//!
//! Every encoder, decoder and arithmetic operation carries a contract that
//! pins down the exact bit layout or the exact numeric result, and the
//! round-trip laws between encoders and decoders are proved as lemmas next
//! to the functions they relate.

pub mod check;
pub mod errors;
pub mod name;
pub mod symbol_code;
pub mod decimal;
pub mod symbol;
pub mod asset;
pub mod arith;
pub mod extended_symbol;
pub mod extended_asset;
pub mod microseconds;
pub mod time_point;
pub mod time_point_sec;
pub mod eosiolib;
pub mod text;

pub use crate::check::check;
pub use crate::errors::ParseError;
pub use crate::name::Name;
pub use crate::name::name_to_bytes;
pub use crate::symbol_code::SymbolCode;
pub use crate::symbol::Symbol;
pub use crate::asset::Asset;
pub use crate::asset::AssetError;
pub use crate::extended_symbol::ExtendedSymbol;
pub use crate::extended_asset::ExtendedAsset;
pub use crate::microseconds::Microseconds;
pub use crate::microseconds::milliseconds;
pub use crate::microseconds::seconds;
pub use crate::microseconds::minutes;
pub use crate::microseconds::hours;
pub use crate::microseconds::days;
pub use crate::time_point::TimePoint;
pub use crate::time_point_sec::TimePointSec;
pub use crate::eosiolib::write_decimal;
