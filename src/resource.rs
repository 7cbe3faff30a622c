use vstd::prelude::*;

verus! {

/// A live read-only, private mapping of a whole file: its base address, as an
/// integer, and its length in bytes.
#[derive(Clone, Copy, Debug, PartialEq, Eq, Structural)]
pub struct MappedRegion {
    pub start: usize,
    pub size: usize,
}

/// One entry of an arena's ledger. Once recorded, the bytes it stands for
/// are never written to and never move.
#[derive(Debug)]
pub enum Resource {
    /// A file mapped into the address space; released by unmapping.
    Mapped(MappedRegion),
    /// A heap buffer holding a copy of loaded bytes; released by dropping.
    Owned(Vec<u8>),
}

/// The number of bytes a resource stands for.
pub open spec fn size_of(r: Resource) -> nat {
    match r {
        Resource::Mapped(m) => m.size as nat,
        Resource::Owned(b) => b@.len(),
    }
}

impl Resource {
    /// The number of bytes this resource stands for.
    pub fn size(&self) -> (r: usize)
        ensures
            r == size_of(*self),
    {
        match self {
            Resource::Mapped(m) => m.size,
            Resource::Owned(b) => b.len(),
        }
    }
}

} // verus!
