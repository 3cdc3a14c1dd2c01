//! The errors of the server.

use vstd::prelude::*;

verus! {

/// Why a request failed.
#[derive(Clone, Copy, Debug, PartialEq, Eq, Structural)]
pub enum RustusError {
    /// There is no such upload.
    FileNotFound,
    /// The length that was told is less than what has come already.
    WrongOffset,
    /// All bytes of the upload have come.
    FrozenFile,
    /// The length of the upload is known and stays.
    SizeAlreadyKnown,
    /// The bytes do not have the checksum that came with them.
    WrongChecksum,
    /// Anything else.
    Unknown,
}

impl RustusError {
    /// The status with which the error is answered.
    pub open spec fn status(self) -> u16 {
        match self {
            RustusError::FileNotFound => 404,
            RustusError::WrongOffset => 409,
            RustusError::FrozenFile => 400,
            RustusError::SizeAlreadyKnown => 400,
            RustusError::WrongChecksum => 417,
            RustusError::Unknown => 500,
        }
    }

    /// The status with which the error is answered.
    pub fn status_code(&self) -> (r: u16)
        ensures
            r == self.status(),
    {
        match self {
            RustusError::FileNotFound => 404,
            RustusError::WrongOffset => 409,
            RustusError::FrozenFile => 400,
            RustusError::SizeAlreadyKnown => 400,
            RustusError::WrongChecksum => 417,
            RustusError::Unknown => 500,
        }
    }
}

} // verus!
