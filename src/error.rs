use vstd::prelude::*;

verus! {

/// What went wrong, told apart finely enough that a caller can choose:
/// retry a store failure, but not a record whose stored shape is wrong.
#[derive(Clone, Copy, Debug, PartialEq, Eq, Structural)]
pub enum Error {
    /// A loop mode is not one of its coded values.
    InvalidLoopMode,
    /// A stored record exists, but lacks a field or holds a value of the
    /// wrong shape for the object asked for.
    Materialize,
    /// A record that had to exist is absent.
    NotFound,
    /// An identifier is not a decimal number that fits in 64 bits.
    ParseInt,
    /// The store failed to carry out a command.
    Store,
}

impl Error {
    /// A short description of the error.
    pub fn description(&self) -> (r: &'static str)
        ensures
            r@ == match self {
                Error::InvalidLoopMode => "Invalid loop mode"@,
                Error::Materialize => "Stored record has the wrong shape"@,
                Error::NotFound => "none"@,
                Error::ParseInt => "Invalid identifier"@,
                Error::Store => "Store command failed"@,
            },
    {
        match self {
            Error::InvalidLoopMode => "Invalid loop mode",
            Error::Materialize => "Stored record has the wrong shape",
            Error::NotFound => "none",
            Error::ParseInt => "Invalid identifier",
            Error::Store => "Store command failed",
        }
    }
}

} // verus!
