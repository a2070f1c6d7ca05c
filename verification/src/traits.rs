//! Traits for objects that can be told apart.

use crate::id::Id;
use vstd::prelude::*;

verus! {

/// An object with an identifier of its own.
pub trait Identifiable {
    /// The object's identifier.
    fn id(&self) -> Id;
}

/// An object with a name.
pub trait Named {
    /// The object's name.
    fn name(&self) -> &str;
}

} // verus!
