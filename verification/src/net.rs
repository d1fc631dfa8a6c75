//! Errors of the network stack.

use vstd::prelude::*;
use smoltcp::Error as SmoltcpError;

verus! {

#[verifier::external_type_specification]
#[verifier::external_body]
pub struct ExSmoltcpError(SmoltcpError);

/// Errors of the network stack.
#[derive(Clone, Copy, Debug, PartialEq, Eq, Structural)]
pub enum Error {
    Exhausted,
    Illegal,
    Unaddressable,
    Finished,
    Truncated,
    Checksum,
    Unrecognized,
    Fragmented,
    Malformed,
    Dropped,
    NotSupported,
    InvalidGateway,
    Unknown,
}

/// The variants of `smoltcp::Error`, told apart.
#[derive(Clone, Copy, Debug, PartialEq, Eq, Structural)]
pub enum SmoltcpErrorKind {
    Exhausted,
    Illegal,
    Unaddressable,
    Finished,
    Truncated,
    Checksum,
    Unrecognized,
    Fragmented,
    Malformed,
    Dropped,
    NotSupported,
    /// A variant added to `smoltcp::Error` after those above.
    Other,
}

/// The stack's error for a `smoltcp` error of kind `k`: the variant of the
/// same name, and `Unknown` for any other.
pub open spec fn error_of_kind(k: SmoltcpErrorKind) -> Error {
    match k {
        SmoltcpErrorKind::Exhausted => Error::Exhausted,
        SmoltcpErrorKind::Illegal => Error::Illegal,
        SmoltcpErrorKind::Unaddressable => Error::Unaddressable,
        SmoltcpErrorKind::Finished => Error::Finished,
        SmoltcpErrorKind::Truncated => Error::Truncated,
        SmoltcpErrorKind::Checksum => Error::Checksum,
        SmoltcpErrorKind::Unrecognized => Error::Unrecognized,
        SmoltcpErrorKind::Fragmented => Error::Fragmented,
        SmoltcpErrorKind::Malformed => Error::Malformed,
        SmoltcpErrorKind::Dropped => Error::Dropped,
        SmoltcpErrorKind::NotSupported => Error::NotSupported,
        SmoltcpErrorKind::Other => Error::Unknown,
    }
}

/// The kind of the `smoltcp` error `e`: the kind of the same name as its
/// variant, `Other` for a variant unknown here.
pub uninterp spec fn smoltcp_kind(e: SmoltcpError) -> SmoltcpErrorKind;

/// Tells the variants of a `smoltcp::Error` apart: each variant gives the
/// kind of the same name, and a variant unknown here gives `Other`. What is
/// claimed: the kind is `smoltcp_kind(e)`, a function of the error alone;
/// the error is opaque to the verifier, so which kind goes with which
/// variant is left unsaid in the contract.
#[verifier::external_body]
fn smoltcp_error_kind(e: SmoltcpError) -> (r: SmoltcpErrorKind)
    ensures
        r == smoltcp_kind(e),
{
    match e {
        SmoltcpError::Exhausted => SmoltcpErrorKind::Exhausted,
        SmoltcpError::Illegal => SmoltcpErrorKind::Illegal,
        SmoltcpError::Unaddressable => SmoltcpErrorKind::Unaddressable,
        SmoltcpError::Finished => SmoltcpErrorKind::Finished,
        SmoltcpError::Truncated => SmoltcpErrorKind::Truncated,
        SmoltcpError::Checksum => SmoltcpErrorKind::Checksum,
        SmoltcpError::Unrecognized => SmoltcpErrorKind::Unrecognized,
        SmoltcpError::Fragmented => SmoltcpErrorKind::Fragmented,
        SmoltcpError::Malformed => SmoltcpErrorKind::Malformed,
        SmoltcpError::Dropped => SmoltcpErrorKind::Dropped,
        SmoltcpError::NotSupported => SmoltcpErrorKind::NotSupported,
        _ => SmoltcpErrorKind::Other,
    }
}

impl Error {
    /// The stack's error for a `smoltcp` error of kind `kind`.
    pub fn from_kind(kind: SmoltcpErrorKind) -> (r: Error)
        ensures
            r == error_of_kind(kind),
    {
        match kind {
            SmoltcpErrorKind::Exhausted => Error::Exhausted,
            SmoltcpErrorKind::Illegal => Error::Illegal,
            SmoltcpErrorKind::Unaddressable => Error::Unaddressable,
            SmoltcpErrorKind::Finished => Error::Finished,
            SmoltcpErrorKind::Truncated => Error::Truncated,
            SmoltcpErrorKind::Checksum => Error::Checksum,
            SmoltcpErrorKind::Unrecognized => Error::Unrecognized,
            SmoltcpErrorKind::Fragmented => Error::Fragmented,
            SmoltcpErrorKind::Malformed => Error::Malformed,
            SmoltcpErrorKind::Dropped => Error::Dropped,
            SmoltcpErrorKind::NotSupported => Error::NotSupported,
            SmoltcpErrorKind::Other => Error::Unknown,
        }
    }

    /// The stack's error for the `smoltcp` error `e`: the variant of the
    /// same name, `Unknown` for one this stack does not know.
    pub fn from_smoltcp(e: SmoltcpError) -> (r: Error)
        ensures
            r == error_of_kind(smoltcp_kind(e)),
    {
        let k = smoltcp_error_kind(e);
        Error::from_kind(k)
    }
}

/// No `smoltcp` error becomes `InvalidGateway`: that error is the stack's
/// own.
pub proof fn lemma_invalid_gateway_is_own(k: SmoltcpErrorKind)
    ensures
        error_of_kind(k) != Error::InvalidGateway,
{
}

} // verus!
