//! HTTP header names used by the Azure Relay protocol.

use vstd::prelude::*;

verus! {

/// The authentication header for Azure Relay (NOT the standard `Authorization` header).
pub const SERVICE_BUS_AUTHORIZATION: &'static str = "ServiceBusAuthorization";

/// Custom user-agent header for Azure Relay (NOT the standard `User-Agent` header).
pub const RELAY_USER_AGENT: &'static str = "Relay-User-Agent";

} // verus!
