use vstd::prelude::*;

verus! {

/// The standard I/O error, carried through by [`ResourceError::Io`].
#[verifier::external_type_specification]
#[verifier::external_body]
pub struct ExIoError(std::io::Error);

/// The error that the URI validator reports for a malformed URI.
#[verifier::external_type_specification]
#[verifier::external_body]
pub struct ExUriValidationError(iri_string::validate::Error);

/// Errors of resource reading.
#[derive(Debug)]
pub enum ResourceError {
    Io(std::io::Error),
    Network(String),
    NotFound(String),
    BadUri(String),
    InvalidUri(iri_string::validate::Error),
    BadArchive(String),
    Decompression(String),
}

} // verus!
