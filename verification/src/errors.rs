use vstd::prelude::*;

verus! {

/// The error kinds a storage or remote-resource operation can surface.
///
/// Storage operations never swallow a failure: every one is returned to the
/// immediate caller as one of these kinds. Deletions are the sole exception
/// to strictness — an absent target is treated as success, so they return no
/// error at all for it.
#[derive(Clone, Copy, Debug, PartialEq, Eq, Structural)]
pub enum FsError {
    /// A read, metadata, or canonicalize call targeted a path the backend has
    /// no record of.
    NotFound,
    /// Non-recursive directory creation found the target already present or
    /// its immediate parent missing.
    AlreadyExists,
    /// The host filesystem refused access.
    PermissionDenied,
    /// Any other host-filesystem failure, with its reason kept by the layer
    /// that observed it.
    OtherIo,
    /// A remote fetch could not be completed at the transport level
    /// (connection failure, timeout, non-decodable response).
    NetworkError,
}

} // verus!
