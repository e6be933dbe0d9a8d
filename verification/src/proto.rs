//! The request and reply messages of the service, as plain values.

use vstd::prelude::*;

verus! {

/// Opens the service: `mode` picks the engine, `path` is where a disk engine keeps its files.
pub struct OpenIn {
    pub path: String,
    pub mode: i32,
}

/// Stores `val` under `key`.
pub struct SaveIn {
    pub key: String,
    pub val: String,
}

/// A single string: the key of a lookup, or the value that a lookup answers.
pub struct Str {
    pub val: String,
}

/// The generic reply: a status code and a message.
pub struct Resp {
    pub ret: i32,
    pub msg: String,
}

/// Why a request failed.
pub enum BackendError {
    /// An LMDB lookup found no string under the key.
    NotExists,
    /// A sled lookup found bytes that are not UTF-8; the message says where.
    InvalidUtf8(String),
    /// The disk engine reported an error, with its message.
    Store(String),
}

pub type BackendResult<T> = Result<T, BackendError>;

impl Resp {
    /// The reply of a request that succeeded: code 0 and no message.
    pub fn ok() -> (r: Resp)
        ensures
            r.ret == 0,
            r.msg@ == Seq::<char>::empty(),
    {
        Resp { ret: 0, msg: String::new() }
    }
}

impl BackendError {
    /// The error's message, as the service reports it.
    pub fn message(&self) -> (s: String)
        ensures
            s@ == self.spec_message(),
    {
        match self {
            BackendError::NotExists => {
                let s = "not exists";
                proof { reveal_strlit("not exists"); }
                s.to_owned()
            }
            BackendError::InvalidUtf8(m) => m.clone(),
            BackendError::Store(m) => m.clone(),
        }
    }

    pub open spec fn spec_message(&self) -> Seq<char> {
        match self {
            BackendError::NotExists => "not exists"@,
            BackendError::InvalidUtf8(m) => m@,
            BackendError::Store(m) => m@,
        }
    }
}

/// The methods of the service, numbered in the order in which the service
/// declares them.
#[derive(Debug, Clone, Copy, PartialEq, Eq, Structural)]
pub enum Command {
    Create,
    Save,
    Get,
}

impl Command {
    /// The method with number `index`, if there is one.
    pub fn from_index(index: u32) -> (c: Option<Command>)
        ensures
            index == 0 ==> c == Some(Command::Create),
            index == 1 ==> c == Some(Command::Save),
            index == 2 ==> c == Some(Command::Get),
            index > 2 ==> c is None,
    {
        if index == 0 {
            Some(Command::Create)
        } else if index == 1 {
            Some(Command::Save)
        } else if index == 2 {
            Some(Command::Get)
        } else {
            None
        }
    }
}

} // verus!
