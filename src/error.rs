use vstd::prelude::*;

verus! {

/// The ways resolving or fetching a repository can fail.
#[derive(Clone, Copy, Debug, PartialEq, Eq, Structural)]
pub enum HfError {
    /// The identifier is not a URI at all.
    MalformedIdentifier,
    /// The identifier's scheme is not `hf`.
    InvalidScheme,
    /// The metadata endpoint answered "not found".
    RepositoryNotFound,
    /// The service rejected the credentials.
    Unauthorized,
    /// A selected file's path does not start with the directory filter.
    FilterPrefixMismatch,
    /// The network transfer failed or answered with an unexpected status.
    TransportFailure,
    /// Creating a directory or writing a file failed.
    FilesystemFailure,
}

} // verus!
