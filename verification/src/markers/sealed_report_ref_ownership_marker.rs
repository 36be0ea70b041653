//! The seal of the report reference ownership markers.

use vstd::prelude::*;
use super::{Cloneable, Uncloneable};

verus! {

/// Implemented only by the markers of this library.
pub trait Sealed {}

impl Sealed for Cloneable {}

impl Sealed for Uncloneable {}

} // verus!
