//! Actions for the `sb-hc-action` query parameter.

use vstd::prelude::*;

verus! {

pub const LISTEN: &'static str = "listen";
pub const CONNECT: &'static str = "connect";
pub const ACCEPT: &'static str = "accept";
pub const REQUEST: &'static str = "request";

} // verus!
