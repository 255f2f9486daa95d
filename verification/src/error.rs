//! Error values returned by the file system logic.

use vstd::prelude::*;

verus! {

/// The failures the file system logic reports, named after the errno
/// values a caller hands back to the VFS.
#[derive(Copy, Clone, Debug, PartialEq, Eq, Structural)]
pub enum Error {
    /// I/O error (`EIO`): on-disk data is missing or inconsistent.
    Io,
    /// Invalid argument (`EINVAL`): a value is out of its allowed range.
    InvalidArgument,
    /// Math argument out of domain (`EDOM`).
    Domain,
}

impl Error {
    /// The negative errno value of this error.
    pub fn to_errno(&self) -> (r: i32)
        ensures
            *self == Error::Io ==> r == -5,
            *self == Error::InvalidArgument ==> r == -22,
            *self == Error::Domain ==> r == -33,
    {
        match self {
            Error::Io => -5,
            Error::InvalidArgument => -22,
            Error::Domain => -33,
        }
    }
}

} // verus!
