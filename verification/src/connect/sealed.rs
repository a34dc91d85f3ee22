//! The seal of [`ConnectOptionExt`](crate::connect::ConnectOptionExt): a
//! public trait in a private module, so no other crate can implement it.

use vstd::prelude::*;

verus! {

/// Implemented only by the types this library extends.
pub trait Sealed {}

impl<T, E> Sealed for Result<Option<T>, E> {}

} // verus!
