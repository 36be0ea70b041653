//! The seal of the result extension.

use vstd::prelude::*;

verus! {

/// Implemented only by `Result`.
pub trait Sealed {}

impl<A, E> Sealed for Result<A, E> {}

} // verus!
