//! The one error type of the library.
use vstd::prelude::*;

verus! {

/// Errors returned by this crate.
#[derive(Debug, Clone, PartialEq, Eq)]
pub enum Error {
    Internal { description: String },
    InvalidBase58EncodedData { description: String },
    InvalidBytes,
    InvalidIntegerString,
    InvalidUnsignedIntegerString,
    InvalidTezString,
    InvalidConversion,
    InvalidEncodedValue,
    InvalidNaturalBytes,
    InvalidIntegerBytes,
    InvalidSecretKeyBytes,
    InvalidPublicKeyBytes,
    InvalidSignatureBytes,
    InvalidIntegerConversion,
    InvalidNaturalConversion,
    InvalidAddress,
    InvalidContractAddress,
    InvalidHexString,
    UnsupportedOperationKind,
}

} // verus!
