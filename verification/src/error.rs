//! Host-side failures on their way to the script.

use vstd::prelude::*;

verus! {

/// What the conversion of an integer reports when the value lies outside the VM's integer range.
pub const OUT_OF_RANGE: &'static str = "out of range integral type conversion attempted";

/// A failure of the host that the script gets to see as an error value.
#[derive(Debug, PartialEq, Eq)]
pub enum Error {
    /// A value of the host type `ty` has no counterpart in the VM; `message` says why.
    Push { ty: &'static str, message: String },
    /// Any other failure of the host, by its description.
    Host { description: String },
}

/// An [`Error`] as specifications see it.
pub enum SpecError {
    Push { ty: Seq<char>, message: Seq<char> },
    Host { description: Seq<char> },
}

impl View for Error {
    type V = SpecError;

    open spec fn view(&self) -> SpecError {
        match self {
            Error::Push { ty, message } => SpecError::Push { ty: ty@, message: message@ },
            Error::Host { description } => SpecError::Host { description: description@ },
        }
    }
}

impl Clone for Error {
    fn clone(&self) -> (err: Error)
        ensures
            err == *self,
    {
        match self {
            Error::Push { ty, message } => Error::Push { ty: *ty, message: message.clone() },
            Error::Host { description } => Error::Host { description: description.clone() },
        }
    }
}

impl Error {
    /// The failure to push a value of the host type `ty`, for the reason that `message` gives.
    pub fn push_error(ty: &'static str, message: &str) -> (err: Error)
        ensures
            err@ == (SpecError::Push { ty: ty@, message: message@ }),
    {
        Error::Push { ty, message: message.to_owned() }
    }

    /// A failure of the host, known by its description alone.
    pub fn host(description: String) -> (err: Error)
        ensures
            err@ == (SpecError::Host { description: description@ }),
    {
        Error::Host { description }
    }
}

} // verus!
