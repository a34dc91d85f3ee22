//! Resources that expose an identifier.

use vstd::prelude::*;

verus! {

/// A resource with a displayable identifier.
pub trait HasId {
    /// The identifier's type.
    type Id: core::fmt::Display;

    /// The identifier.
    fn id(&self) -> &Self::Id;
}

} // verus!
