//! The error taxonomy surfaced to RPC callers, and the two plain error
//! carriers used internally.

use vstd::prelude::*;

verus! {

/// The kind of failure an operation reports; the transport maps each kind
/// onto the matching RPC status code.
#[derive(Clone, Copy, Debug, PartialEq, Eq, Structural)]
pub enum ErrorKind {
    Unauthenticated,
    PermissionDenied,
    NotFound,
    InvalidArgument,
    Unimplemented,
    Internal,
}

/// An operation failure: a kind from the taxonomy and a short message that
/// does not leak internal detail.
#[derive(Debug)]
pub struct ApiError {
    pub kind: ErrorKind,
    pub details: String,
}

impl Clone for ApiError {
    fn clone(&self) -> (r: Self)
        ensures
            r.kind == self.kind,
            r.details@ == self.details@,
    {
        ApiError { kind: self.kind, details: self.details.clone() }
    }
}

impl ApiError {
    pub fn new(kind: ErrorKind, details: &str) -> (r: Self)
        ensures
            r.kind == kind,
            r.details@ == details@,
    {
        ApiError { kind, details: details.to_owned() }
    }

    /// The short human-readable message of this error.
    pub fn message(&self) -> (r: &str)
        ensures
            r@ == self.details@,
    {
        self.details.as_str()
    }
}

/// An error that signals a malformed or rejected argument.
#[derive(Debug)]
pub struct InvalidError {
    pub details: String,
}

impl InvalidError {
    pub fn new(msg: &str) -> (r: InvalidError)
        ensures
            r.details@ == msg@,
    {
        InvalidError { details: msg.to_owned() }
    }

    /// The message this error carries.
    pub fn message(&self) -> (r: &str)
        ensures
            r@ == self.details@,
    {
        self.details.as_str()
    }
}

/// A plain error wrapping a single message.
#[derive(Debug)]
pub struct SimpleError {
    pub details: String,
}

impl SimpleError {
    pub fn new(msg: &str) -> (r: SimpleError)
        ensures
            r.details@ == msg@,
    {
        SimpleError { details: msg.to_owned() }
    }

    /// The message this error carries.
    pub fn message(&self) -> (r: &str)
        ensures
            r@ == self.details@,
    {
        self.details.as_str()
    }
}

} // verus!
