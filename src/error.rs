use vstd::prelude::*;

verus! {

/// The kinds of failure the library reports.
#[derive(Clone, Copy, Debug, PartialEq, Eq, Structural)]
pub enum ErrorKind {
    /// A filesystem or network primitive failed.
    Io,
    /// A persisted document or heartbeat exists but cannot be parsed.
    Corrupt,
    /// A requested mod, archive or game configuration does not resolve.
    NotFound,
    /// An operation was asked for in a state that forbids it.
    Precondition,
    /// A namespace, mount or identity change failed.
    Privilege,
    /// An archive format has no codec.
    Unsupported,
}

/// A failure: its kind and a message for the user.
#[derive(Debug)]
pub struct MomaError {
    pub kind: ErrorKind,
    pub message: String,
}

impl MomaError {
    pub fn new(kind: ErrorKind, message: &str) -> (r: MomaError)
        ensures
            r.kind == kind,
            r.message@ == message@,
    {
        MomaError { kind, message: String::from_str(message) }
    }
}

} // verus!
