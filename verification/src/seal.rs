//! The crate-private half of the role-view sealing.  Outside code can name
//! `Sealed`, but implementing it requires this marker, and this module is
//! not reachable from outside the crate.

use vstd::prelude::*;

verus! {

/// Implemented only by this crate's role view.
pub trait Marker {}

} // verus!
