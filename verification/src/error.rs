//! Errors of the scenario tooling.

use vstd::prelude::*;

verus! {

/// What kind of failure an error reports.
#[derive(Debug, Clone, Copy, PartialEq, Eq, Structural)]
pub enum WfgenReason {
    Parse,
    Validation,
    Generation,
    Io,
}

/// A failure with a human-readable detail.
#[derive(Debug, Clone, PartialEq)]
pub struct WfgenError {
    pub reason: WfgenReason,
    pub detail: String,
}

impl WfgenError {
    pub fn new(reason: WfgenReason, detail: String) -> (r: WfgenError)
        ensures
            r.reason == reason,
            r.detail == detail,
    {
        WfgenError { reason, detail }
    }

    /// How the error reads: its detail.
    pub fn to_string(&self) -> (r: String)
        ensures
            r@ == self.detail@,
    {
        self.detail.clone()
    }
}

} // verus!
