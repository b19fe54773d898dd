//! The error taxonomy shared by every layer: a requested row that does not
//! exist, caller input that breaks a business rule, and unexpected store or
//! serialization failures. Errors propagate unchanged from the repository
//! through the use-case and service layers.
use vstd::prelude::*;

verus! {

/// The three error kinds of the system.
#[derive(Debug)]
pub enum Error {
    /// The requested entity id has no matching row.
    NotFound { message: String },
    /// Caller input fails a business rule; carries human-readable messages.
    InvalidArgs { messages: Vec<String> },
    /// Store, serialization, or other unexpected failure.
    Internal { message: String },
}

impl Error {
    /// Build a not-found error from a message.
    pub fn not_found(message: &str) -> (r: Error)
        ensures
            r matches Error::NotFound { message: m } && m@ == message@,
    {
        Error::NotFound { message: message.to_owned() }
    }

    /// Build an invalid-arguments error carrying a single message.
    pub fn invalid_args(message: &str) -> (r: Error)
        ensures
            r matches Error::InvalidArgs { messages: ms } && ms@.len() == 1 && ms@[0]@
                == message@,
    {
        let mut messages: Vec<String> = Vec::new();
        messages.push(message.to_owned());
        Error::InvalidArgs { messages }
    }

    /// Build an internal error from a message.
    pub fn internal(message: &str) -> (r: Error)
        ensures
            r matches Error::Internal { message: m } && m@ == message@,
    {
        Error::Internal { message: message.to_owned() }
    }
}

/// The body sent as an error response to the client.
#[derive(Debug)]
pub struct Errors {
    pub errors: Vec<String>,
}

/// The HTTP status code an error maps to.
pub fn http_status_code(err: &Error) -> (r: u16)
    ensures
        err is NotFound ==> r == 404,
        err is InvalidArgs ==> r == 400,
        err is Internal ==> r == 500,
{
    match err {
        Error::NotFound { .. } => 404,
        Error::InvalidArgs { .. } => 400,
        Error::Internal { .. } => 500,
    }
}

/// The response body for an error: its human-readable messages.
pub fn http_errors(err: &Error) -> (r: Errors)
    ensures
        err matches Error::NotFound { message } ==> r.errors@.len() == 1 && r.errors@[0]
            == message,
        err matches Error::InvalidArgs { messages } ==> r.errors@ == messages@,
        err matches Error::Internal { message } ==> r.errors@.len() == 1 && r.errors@[0]
            == message,
{
    match err {
        Error::InvalidArgs { messages } => Errors { errors: messages.clone() },
        Error::NotFound { message } => {
            let mut errors: Vec<String> = Vec::new();
            errors.push(message.clone());
            Errors { errors }
        },
        Error::Internal { message } => {
            let mut errors: Vec<String> = Vec::new();
            errors.push(message.clone());
            Errors { errors }
        },
    }
}

} // verus!
