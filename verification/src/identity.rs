//! Identifiers that the server hands out and the client sends back.

use vstd::prelude::*;

verus! {

/// A file handle on the wire.
#[derive(Clone, Copy, Debug, PartialEq, Eq, Hash, Structural)]
pub struct FileId {
    pub persistent: u64,
    pub volatile: u64,
}

impl Default for FileId {
    fn default() -> (id: Self)
        ensures
            id == (FileId { persistent: 0, volatile: 0 }),
    {
        FileId { persistent: 0, volatile: 0 }
    }
}

/// A globally unique identifier.
#[derive(Clone, Copy, Debug, PartialEq, Eq, Hash, Structural)]
pub struct Guid(pub u128);

} // verus!
