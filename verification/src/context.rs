//! What a reducer is told of the call that it serves.

use crate::identity::Identity;
use vstd::prelude::*;

verus! {

/// The caller of a reducer and the time of the call.
#[derive(Clone, Copy, Debug, PartialEq, Eq)]
pub struct ReducerContext {
    /// The principal that made the call.
    pub sender: Identity,
    /// When the reducer was started, in microseconds since the Unix epoch.
    pub timestamp: u64,
}

} // verus!
