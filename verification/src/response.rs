//! The answer a handler produces, and the ways file work can fail.

use vstd::prelude::*;

verus! {

/// Status code of a request that was served successfully.
pub const STATUS_OK: u16 = 200;

/// Status code of a request whose file or stream work failed.
pub const STATUS_INTERNAL_SERVER_ERROR: u16 = 500;

/// What a handler answers: a status code and a text body.
pub struct Response {
    pub status: u16,
    pub body: String,
}

/// A failure of a handler's file or stream work. Each variant carries
/// the operating system's textual description of the failure; the kind
/// is kept so that callers can still tell the failures apart, and the
/// text leaves the library only when a [`Response`] is built.
pub enum FileError {
    /// The named file could not be opened for reading.
    OpenFailed(String),
    /// The target file could not be created.
    CreateFailed(String),
    /// Writing bytes to the target file failed.
    WriteFailed(String),
    /// Reading the next chunk of the request body failed.
    StreamFailed(String),
}

impl FileError {
    /// The textual description carried by this error.
    pub open spec fn message_rep(&self) -> Seq<char> {
        match self {
            FileError::OpenFailed(m) => m@,
            FileError::CreateFailed(m) => m@,
            FileError::WriteFailed(m) => m@,
            FileError::StreamFailed(m) => m@,
        }
    }

    /// Flattens the error to the plain text sent to the client.
    pub fn message(&self) -> (r: &String)
        ensures
            r@ == self.message_rep(),
    {
        match self {
            FileError::OpenFailed(m) => m,
            FileError::CreateFailed(m) => m,
            FileError::WriteFailed(m) => m,
            FileError::StreamFailed(m) => m,
        }
    }
}

} // verus!
