use vstd::prelude::*;

verus! {

/// A caller-supplied value (an address string, a hex digit) was malformed.
#[derive(PartialEq, Eq, Structural, Clone, Copy, Debug)]
pub enum ValidationError {
    /// The address string is not `0x` plus 40 hex digits (the prefix may be absent).
    InvalidAddressFormat,
}

/// The private key material was unusable for signing.
#[derive(PartialEq, Eq, Structural, Clone, Copy, Debug)]
pub struct SigningError;

/// Curve recovery failed: malformed scalars or an out-of-range recovery selector.
#[derive(PartialEq, Eq, Structural, Clone, Copy, Debug)]
pub struct InvalidSignatureError;

/// A log matched an event descriptor but its shape disagreed with the schema.
#[derive(PartialEq, Eq, Structural, Clone, Copy, Debug)]
pub enum MalformedEventError {
    /// The topic list does not hold exactly one slot per indexed field plus the signature.
    TopicCountMismatch,
    /// The data buffer is too short for the declared non-indexed fields.
    DataTooShort,
}

/// The receipt's status flag reported an on-chain failure.
#[derive(PartialEq, Eq, Structural, Clone, Copy, Debug)]
pub struct TransactionRejectedError;

} // verus!
