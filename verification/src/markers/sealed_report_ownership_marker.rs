//! The seal of the report ownership markers.

use vstd::prelude::*;
use super::{Cloneable, Mutable};

verus! {

/// Implemented only by the markers of this library.
pub trait Sealed {}

impl Sealed for Mutable {}

impl Sealed for Cloneable {}

} // verus!
