//! Why a check on an attestation or a sized container fails.

use vstd::prelude::*;

verus! {

/// Why a check on a validator or an attestation failed.
#[derive(Clone, Copy, Debug, PartialEq, Eq, Structural)]
pub enum Error {
    /// An indexed attestation lists no validator at all.
    EmptyIndices,
    /// An indexed attestation lists more validators than a committee can have.
    MaxIndicesExceeded,
    /// A validator is listed under both values of the custody bit.
    CustodyBitValidatorsIntersect,
    /// The listed validators are not in strictly ascending order.
    BadValidatorIndicesOrdering,
    /// A listed validator is not in the registry.
    UnknownValidator,
    /// A public key or a signature is not the encoding of one.
    InvalidSignatureEncoding,
    /// The aggregate signature of an attestation does not verify.
    InvalidAttestationSignature,
    /// Two attestations vote for two targets of one epoch.
    DoubleVote,
    /// One attestation surrounds the other.
    SurroundVote,
}

/// Why a sized container refused a value.
#[derive(Clone, Copy, Debug, PartialEq, Eq, Structural)]
pub enum SszError {
    /// An index or a length lies past the end.
    OutOfBounds { i: usize, len: usize },
    /// A bit list has no bit that marks its end.
    MissingLengthInformation,
    /// A bit list has bits set past its end.
    ExcessBits,
    /// A bit list has not the number of bytes that its length asks for.
    InvalidByteCount { given: usize, expected: usize },
}

} // verus!
