//! The kinds of failure that the file system reports.
use vstd::prelude::*;

verus! {

/// A failure, as the WebDAV layer sees it.
#[derive(Debug, Clone)]
pub enum FsError {
    /// The path or id does not exist.
    NotFound,
    /// An exclusive create found the path taken.
    Exists,
    /// Refused: read-only mode, a kind that does not fit, a parent that is no folder.
    Forbidden,
    /// Not offered: appending, properties other than checksums.
    NotImplemented,
    /// No refresh token at start.
    NoCredential,
    /// The service answered with an error that is not worth retrying.
    Upstream { status: u16, body: String },
    /// The connection failed or timed out.
    Transport,
    /// Anything else: a body that does not decode, an address that does not parse.
    GeneralFailure,
}

} // verus!
