//! The seal of the object marker.

use vstd::prelude::*;

verus! {

/// Implemented by every sized type.
pub trait Sealed {}

impl<C> Sealed for C {}

} // verus!
