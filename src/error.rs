//! A fault of either direction, as one description.
use vstd::prelude::*;
use crate::{de, ser};

verus! {

/// A decoding or encoding fault, described.
#[derive(Clone, Debug, PartialEq, Eq)]
pub enum Error {
    Custom(String),
}

impl Error {
    /// The description of a decoding fault.
    pub fn from_de(e: &de::Error) -> (r: Error)
        ensures
            r->Custom_0@ == de::error_text(e@),
    {
        Error::Custom(e.message())
    }

    /// The description of an encoding fault.
    pub fn from_ser(e: &ser::Error) -> (r: Error)
        ensures
            r->Custom_0@ == ser::error_text(e@),
    {
        Error::Custom(e.message())
    }

    /// The description.
    pub fn message(&self) -> (r: String)
        ensures
            r@ == self->Custom_0@,
    {
        match self {
            Error::Custom(m) => m.clone(),
        }
    }
}

} // verus!
