//! Failures that the library reports to its callers.
use vstd::prelude::*;

verus! {

/// A non-success HTTP status answered to an object operation.
#[derive(Clone, Copy, Debug, PartialEq, Eq, Structural)]
pub enum ObjectError {
    GetError { status: u16 },
    PutError { status: u16 },
    CopyError { status: u16 },
    DeleteError { status: u16 },
    ListError { status: u16 },
}

/// Every failure of the library, by class.
#[derive(Clone, Copy, Debug, PartialEq, Eq, Structural)]
pub enum OssError {
    /// A header name or value that cannot travel on the wire.
    InvalidHeaderValue,
    /// Text that is not valid in the encoding it must have.
    EncodingError,
    /// A secret that cannot key the signature.
    CredentialError,
    /// A listing document that is not well formed or holds a mistyped field.
    MalformedListing,
    /// The service answered with a status other than success.
    Object(ObjectError),
    /// The transport could not deliver the request or its answer.
    TransportError,
}

} // verus!
