//! The seal of the thread safety markers.

use vstd::prelude::*;
use super::{Local, SendSync};

verus! {

/// Implemented only by the markers of this library.
pub trait Sealed {}

impl Sealed for SendSync {}

impl Sealed for Local {}

} // verus!
