//! The errors of a transfer.

use vstd::prelude::*;

verus! {

/// `std::io::Error`, carried through unchanged by [`TftpError::IOError`].
#[verifier::external_type_specification]
#[verifier::external_body]
pub struct ExIoError(std::io::Error);

/// What can go wrong in a transfer.
#[derive(Debug)]
pub enum TftpError {
    /// The socket could not be used.
    SockError,
    /// A packet makes no sense at this point of the transfer.
    InvalidData,
    /// A packet is too small for the data it should hold.
    PackError,
    /// The transfer mode is neither read nor write.
    InvalidMode,
    /// An error with no particular meaning.
    TODO,
    /// Too many packets were lost or repeated.
    TooManyFailTryes,
    /// An input or output operation failed.
    IOError(std::io::Error),
}

} // verus!
