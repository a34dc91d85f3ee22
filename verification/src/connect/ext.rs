//! Not-found shaping on `Result<Option<T>, E>`.

use vstd::prelude::*;
use crate::connect::code::{ConnectCode, ConnectFailure};
use crate::connect::sealed::Sealed;

verus! {

/// `Result<Option<T>, E>` to `Result<T, ConnectFailure>`: a missing value
/// becomes a `NotFound` failure.
pub trait ConnectOptionExt<T>: Sealed {
    /// `Ok(Some(v))` gives `Ok(v)`, `Ok(None)` a `NotFound` failure with
    /// message `msg`, and `Err(e)` the error converted.
    fn or_not_found(self, msg: &str) -> Result<T, ConnectFailure> where Self: Sized;
}

impl<T, E: Into<ConnectFailure>> ConnectOptionExt<T> for Result<Option<T>, E> {
    fn or_not_found(self, msg: &str) -> (r: Result<T, ConnectFailure>)
        ensures
            match self {
                Ok(Some(v)) => r == Ok::<T, ConnectFailure>(v),
                Ok(None) => r matches Err(f) && f.code == ConnectCode::NotFound && f.message is Some
                    && f.message->0@ == msg@,
                Err(_) => r is Err,
            },
    {
        match self {
            Ok(Some(v)) => Ok(v),
            Ok(None) => Err(ConnectFailure::new(ConnectCode::NotFound, msg)),
            Err(e) => Err(e.into()),
        }
    }
}

} // verus!
