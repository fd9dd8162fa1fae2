//! Error taxonomy of the decoder.

use vstd::prelude::*;

verus! {

/// The four error classes every engine operation can report.
///
/// `Corrupt` marks on-disk data that violates the format (bad superblock
/// magic, a directory record overrunning its block); `NotFound` an inode
/// number outside the valid range or a missing directory entry;
/// `InvalidInput` a caller mistake detectable before any decoding (a relative
/// path, an operation on the wrong inode type); `Io` a byte range that the
/// volume cannot satisfy.
#[derive(Clone, Copy, Debug, PartialEq, Eq, Structural)]
pub enum UfsError {
    Corrupt,
    NotFound,
    InvalidInput,
    Io,
}

impl UfsError {
    /// A short description, in place of a `Display` implementation.
    pub fn describe(&self) -> &'static str {
        match self {
            UfsError::Corrupt => "corrupt filesystem image",
            UfsError::NotFound => "not found",
            UfsError::InvalidInput => "invalid input",
            UfsError::Io => "read out of volume bounds",
        }
    }
}

} // verus!
