//! Which kind of token a provider issues, and the header it travels in.

use vstd::prelude::*;

use crate::relay::protocol::headers;

verus! {

/// Indicates whether an AAD token was used (determines which HTTP header to set).
#[derive(Debug, Clone, Copy, PartialEq, Eq, Structural)]
pub enum TokenKind {
    /// SAS token — uses `ServiceBusAuthorization` header.
    Sas,
    /// AAD Bearer token — uses standard `Authorization` header.
    Aad,
}

/// The header that carries a token of the given kind.
pub fn auth_header_name(kind: TokenKind) -> (r: &'static str)
    ensures
        kind == TokenKind::Sas ==> r@ == headers::SERVICE_BUS_AUTHORIZATION@,
        kind == TokenKind::Aad ==> r@ == "Authorization"@,
{
    match kind {
        TokenKind::Sas => headers::SERVICE_BUS_AUTHORIZATION,
        TokenKind::Aad => "Authorization",
    }
}

} // verus!
