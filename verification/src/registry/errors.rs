//! The ways in which looking up one package can fail.

use vstd::prelude::*;

verus! {

/// `url::ParseError`, the reason why `url::Url::parse` rejects a text.
/// Nothing is known of its values; they are carried through as they are.
#[verifier::external_type_specification]
#[verifier::external_body]
pub struct ExUrlParseError(url::ParseError);

/// A failed lookup. It concerns one package only and never ends a run.
#[derive(Debug, PartialEq, Eq)]
pub enum RegistryError {
    /// The registry answered, but not with dist-tags: the package is
    /// unknown or the answer malformed. Holds the package name and the reason.
    PackageNotFound(String, String),
    /// The request itself failed: connection, timeout, TLS. Holds the reason.
    RequestError(String),
    /// The address built for the package is not a well-formed URL.
    ParseError(url::ParseError),
}

} // verus!
