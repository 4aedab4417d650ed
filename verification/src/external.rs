//! Declarations of the standard-library and outside types that values of
//! this library carry through without looking inside.

use vstd::prelude::*;

verus! {

/// `std::io::Error`, carried by the I/O error variants.
#[verifier::external_type_specification]
#[verifier::external_body]
pub struct ExIoError(std::io::Error);

/// `url::Url`, held by the connection-string builder as its endpoint.
#[verifier::external_type_specification]
#[verifier::external_body]
pub struct ExUrl(url::Url);

} // verus!
