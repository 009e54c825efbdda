//! Socket configuration flags.

use vstd::prelude::*;

verus! {

/// Backend-specific socket configuration.
pub trait Flags: Clone {}

} // verus!
