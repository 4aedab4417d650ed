//! The status of a bridge started from the editor.

use vstd::prelude::*;

verus! {

/// Status of the running bridge instance.
#[derive(Debug, Clone, PartialEq)]
pub enum RunStatus {
    Idle,
    Starting,
    Running,
    Stopped,
    Error(String),
}

} // verus!
