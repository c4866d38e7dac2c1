use vstd::prelude::*;

verus! {

/// The real-disk backend's handle: durable storage backed by the host
/// filesystem. Every operation on it is a thin delegation to a host
/// filesystem call, performed by the unverified edge around this library in
/// both blocking and suspending variants; each host failure is translated to
/// the matching error kind and surfaced, never swallowed. The handle itself
/// carries no state — every copy observes the same durable store.
#[derive(Clone, Copy)]
pub struct RealFileSystem;

impl RealFileSystem {
    /// A handle on the host filesystem.
    pub fn new() -> (r: RealFileSystem)
        ensures
            r == (RealFileSystem {  }),
    {
        RealFileSystem {  }
    }
}

} // verus!
