//! The byte-addressable backing store an export serves from.
//!
//! The engine consumes this interface: it never opens files itself. A
//! store's whole promise is its `contents`; reads that succeed return
//! exactly the bytes of that sequence, and a read may fail on any call
//! (the backing device decides).
use vstd::prelude::*;

verus! {

/// A named byte-addressable object the server makes available.
///
/// `contents` is the store's whole promise; a store outside the verified
/// world may leave it at its default, in which case nothing is claimed
/// about it.
pub trait ExportStore {
    /// The bytes the store holds.
    open spec fn contents(&self) -> Seq<u8> {
        Seq::empty()
    }

    /// The store's size in bytes, fixed for the session.
    fn size(&self) -> (r: u64)
        ensures
            r == self.contents().len(),
    ;

    /// Reads `len` bytes at absolute `offset`. A read that succeeds
    /// returns exactly the store's bytes in that range; any call may fail.
    fn read_at(&self, offset: u64, len: u32) -> (r: Option<Vec<u8>>)
        ensures
            r matches Some(v) ==> offset + len <= self.contents().len() && v@
                == self.contents().subrange(offset as int, offset as int + len as int),
    ;
}

/// A store held wholly in memory.
pub struct MemExport {
    pub bytes: Vec<u8>,
}

impl ExportStore for MemExport {
    open spec fn contents(&self) -> Seq<u8> {
        self.bytes@
    }

    fn size(&self) -> (r: u64) {
        self.bytes.len() as u64
    }

    fn read_at(&self, offset: u64, len: u32) -> (r: Option<Vec<u8>>) {
        let size: usize = self.bytes.len();
        if offset > size as u64 {
            return None;
        }
        let start = offset as usize;
        if (len as u64) > (size - start) as u64 {
            return None;
        }
        let end = start + len as usize;
        Some(vstd::slice::slice_to_vec(vstd::slice::slice_subrange(self.bytes.as_slice(), start, end)))
    }
}

impl MemExport {
    /// Wraps the given bytes as a store.
    pub fn new(bytes: Vec<u8>) -> (r: MemExport)
        ensures
            r.contents() == bytes@,
    {
        MemExport { bytes }
    }
}

} // verus!
