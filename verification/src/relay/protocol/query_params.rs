//! Query parameter names used by the Hybrid Connections protocol.

use vstd::prelude::*;

verus! {

pub const ACTION: &'static str = "sb-hc-action";
pub const ID: &'static str = "sb-hc-id";
pub const TOKEN: &'static str = "sb-hc-token";
pub const STATUS_CODE: &'static str = "sb-hc-statusCode";
pub const STATUS_DESCRIPTION: &'static str = "sb-hc-statusDescription";

} // verus!
