//! The block store: a durable, content-addressed mapping from identifiers to
//! bytes.

use crate::cid::Cid;
use crate::bytes::copy_bytes;
use vstd::prelude::*;

verus! {

/// The block store could not serve a request.
#[derive(Clone, Copy, Debug, PartialEq, Eq, Structural)]
pub struct StoreError;

/// A content-addressed block store.
///
/// What is proved of the code that works on a store rests on the contracts
/// of `get` and `put`. A store that is verified names the blocks that it
/// holds and is held to these contracts; of a store that is written outside
/// of the verifier they are taken on trust.
pub trait Blockstore {
    /// The blocks that the store holds. A store names them by giving this
    /// function a body of its own.
    open spec fn blocks(&self) -> Map<Cid, Seq<u8>> {
        arbitrary()
    }

    /// The bytes stored under `k`, or `None` when there are none.
    fn get(&self, k: &Cid) -> (r: Result<Option<Vec<u8>>, StoreError>)
        ensures
            r matches Ok(Some(data)) ==> self.blocks().contains_key(*k) && data@
                == self.blocks()[*k],
            r matches Ok(None) ==> !self.blocks().contains_key(*k),
    ;

    /// Stores `block` under `k`. A store that fails keeps what it held.
    fn put(&mut self, k: &Cid, block: &[u8]) -> (r: Result<(), StoreError>)
        ensures
            r is Ok ==> final(self).blocks() == old(self).blocks().insert(*k, block@),
            r is Err ==> final(self).blocks() == old(self).blocks(),
    ;
}

/// One block of a [`MemoryBlockstore`].
#[derive(Debug)]
pub struct StoredBlock {
    key: Cid,
    data: Vec<u8>,
}

/// The mapping that a list of stored blocks stands for: a later block
/// replaces an earlier one under the same identifier.
pub closed spec fn stored_blocks(entries: Seq<StoredBlock>) -> Map<Cid, Seq<u8>>
    decreases entries.len(),
{
    if entries.len() == 0 {
        Map::empty()
    } else {
        stored_blocks(entries.drop_last()).insert(entries.last().key, entries.last().data@)
    }
}

/// A block store that keeps its blocks in memory and never fails.
#[derive(Debug)]
pub struct MemoryBlockstore {
    entries: Vec<StoredBlock>,
}

impl MemoryBlockstore {
    /// An empty store.
    pub fn new() -> (r: MemoryBlockstore)
        ensures
            r.blocks() == Map::<Cid, Seq<u8>>::empty(),
    {
        MemoryBlockstore { entries: Vec::new() }
    }
}

impl Blockstore for MemoryBlockstore {
    closed spec fn blocks(&self) -> Map<Cid, Seq<u8>> {
        stored_blocks(self.entries@)
    }

    fn get(&self, k: &Cid) -> (r: Result<Option<Vec<u8>>, StoreError>)
        ensures
            r is Ok,
    {
        let mut i: usize = self.entries.len();
        assert(self.entries@.subrange(0, i as int) =~= self.entries@);
        while i > 0
            invariant
                i <= self.entries@.len(),
                self.blocks().contains_key(*k) == stored_blocks(
                    self.entries@.subrange(0, i as int),
                ).contains_key(*k),
                self.blocks().contains_key(*k) ==> self.blocks()[*k] == stored_blocks(
                    self.entries@.subrange(0, i as int),
                )[*k],
            decreases i,
        {
            let ghost prefix = self.entries@.subrange(0, i as int);
            assert(prefix.drop_last() =~= self.entries@.subrange(0, i - 1));
            assert(prefix.last() == self.entries@[i - 1]);
            i = i - 1;
            if self.entries[i].key.same(k) {
                return Ok(Some(copy_bytes(self.entries[i].data.as_slice())));
            }
        }
        Ok(None)
    }

    fn put(&mut self, k: &Cid, block: &[u8]) -> (r: Result<(), StoreError>)
        ensures
            r is Ok,
    {
        let ghost before = self.entries@;
        self.entries.push(StoredBlock { key: *k, data: copy_bytes(block) });
        assert(self.entries@.drop_last() =~= before);
        Ok(())
    }
}

} // verus!
