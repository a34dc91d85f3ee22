//! Identifiers that travel in a request header of their own.

use vstd::prelude::*;
use std::borrow::Cow;

verus! {

/// An identifier carried in the header `HEADER_NAME`.
pub trait HeaderId {
    /// The header's name.
    const HEADER_NAME: &'static str;

    /// The text of the identifier, as it travels in the header.
    spec fn header_text(&self) -> Seq<char>;

    /// The identifier as the header's value.
    fn as_str(&self) -> (r: Cow<'_, str>)
        ensures
            r@ == self.header_text(),
    ;
}

} // verus!
