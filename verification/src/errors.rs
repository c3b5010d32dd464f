//! The error taxonomy of the store: the three lookup misses, checked in
//! hierarchy order, plus internal, I/O and serialization faults.

use vstd::prelude::*;

verus! {

/// Errors returned by the store.
#[derive(Debug)]
pub enum Error {
    /// The requested persona does not exist.
    PersonaNotFound,
    /// The requested app does not exist within the persona.
    AppNotFound,
    /// The requested key does not exist within the app.
    KeyNotFound,
    /// An internal error occurred (crypto failure, malformed vault data,
    /// serialization fault, invalid key length).
    Internal(String),
    /// An I/O fault reported by the surrounding process.
    Io(String),
    /// A serialization or deserialization fault.
    Serialization(String),
}

/// The lowercase wire-protocol reason text of an error value.
pub open spec fn reason_view(e: Error) -> Seq<char> {
    match e {
        Error::PersonaNotFound => "persona not found"@,
        Error::AppNotFound => "app not found"@,
        Error::KeyNotFound => "key not found"@,
        Error::Internal(m) => "internal error: "@ + m@,
        Error::Io(m) => "io error: "@ + m@,
        Error::Serialization(m) => "serialization error: "@ + m@,
    }
}

impl Error {
    /// The lowercase reason sent after `ERR ` on the wire.
    pub fn reason(&self) -> (r: String)
        ensures
            r@ == reason_view(*self),
    {
        match self {
            Error::PersonaNotFound => "persona not found".to_owned(),
            Error::AppNotFound => "app not found".to_owned(),
            Error::KeyNotFound => "key not found".to_owned(),
            Error::Internal(m) => "internal error: ".to_owned().concat(m.as_str()),
            Error::Io(m) => "io error: ".to_owned().concat(m.as_str()),
            Error::Serialization(m) => "serialization error: ".to_owned().concat(m.as_str()),
        }
    }
}

} // verus!
