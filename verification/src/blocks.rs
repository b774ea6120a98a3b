//! The block registry: the scratch table of in-memory blocks that one
//! invocation addresses by small integer handles.

use crate::blockstore::StoreError;
use crate::cid::Cid;
use vstd::prelude::*;

verus! {

/// Handle of a block in the registry of one invocation.
pub type BlockId = u32;

/// Tag that says how the bytes of a block are to be read.
pub type Codec = u64;

/// Handle of the first block that a registry hands out.
pub const FIRST_ID: BlockId = 1;

/// Most blocks that a registry holds.
pub const MAX_BLOCKS: u32 = 0x7fff_ffff;

/// Most bytes that a block holds.
pub const MAX_BLOCK_SIZE: usize = 0xffff_ffff;

/// A block, as plain values.
pub struct BlockView {
    pub codec: Codec,
    pub data: Seq<u8>,
}

/// A codec tag and a byte payload.
#[derive(Debug, PartialEq, Eq)]
pub struct Block {
    codec: Codec,
    data: Vec<u8>,
}

impl View for Block {
    type V = BlockView;

    closed spec fn view(&self) -> BlockView {
        BlockView { codec: self.codec, data: self.data@ }
    }
}

impl Block {
    pub fn new(codec: Codec, data: Vec<u8>) -> (r: Block)
        ensures
            r@ == (BlockView { codec, data: data@ }),
    {
        Block { codec, data }
    }

    pub fn codec(&self) -> (r: Codec)
        ensures
            r == self@.codec,
    {
        self.codec
    }

    pub fn data(&self) -> (r: &[u8])
        ensures
            r@ == self@.data,
    {
        self.data.as_slice()
    }

    /// Number of bytes in the block.
    pub fn size(&self) -> (r: usize)
        ensures
            r == self@.data.len(),
    {
        self.data.len()
    }
}

/// Codec and size of a block.
#[derive(Clone, Copy, Debug, PartialEq, Eq, Structural)]
pub struct BlockStat {
    pub codec: Codec,
    pub size: u32,
}

/// Why a block operation failed.
#[derive(Clone, Copy, Debug, PartialEq, Eq)]
pub enum BlockError {
    /// The registry holds as many blocks as it can.
    TooManyBlocks,
    /// The block holds more bytes than a registry accepts.
    BlockTooLarge,
    /// The handle names no block of this registry.
    InvalidHandle(BlockId),
    /// The hash function is unknown, or the requested length exceeds its
    /// digest.
    InvalidMultihashSpec { length: u32, code: u64 },
    /// The block store holds nothing under the identifier.
    MissingState(Cid),
    /// The block store failed.
    Internal(StoreError),
}

/// The blocks of one invocation; the block with handle `FIRST_ID + i` is the
/// `i`-th that was registered.
#[derive(Debug)]
pub struct BlockRegistry {
    blocks: Vec<Block>,
}

impl BlockRegistry {
    /// The blocks in the order in which they were registered.
    pub closed spec fn view(&self) -> Seq<BlockView> {
        Seq::new(self.blocks@.len(), |i: int| self.blocks@[i]@)
    }

    /// No block is larger, and the registry holds no more blocks, than its
    /// limits allow.
    pub closed spec fn wf(&self) -> bool {
        &&& self.blocks@.len() <= MAX_BLOCKS
        &&& forall|i: int|
            0 <= i < self.blocks@.len() ==> (#[trigger] self.blocks@[i])@.data.len()
                <= MAX_BLOCK_SIZE
    }

    /// Whether `id` is the handle of a block.
    pub open spec fn has(&self, id: BlockId) -> bool {
        FIRST_ID <= id && id - FIRST_ID < self@.len()
    }

    /// The block with handle `id`.
    pub open spec fn block(&self, id: BlockId) -> BlockView {
        self@[id - FIRST_ID]
    }

    /// An empty registry.
    pub fn new() -> (r: BlockRegistry)
        ensures
            r.wf(),
            r@ == Seq::<BlockView>::empty(),
    {
        let r = BlockRegistry { blocks: Vec::new() };
        assert(r@ =~= Seq::<BlockView>::empty());
        r
    }

    /// Registers a block under a fresh handle.
    pub fn put(&mut self, block: Block) -> (r: Result<BlockId, BlockError>)
        requires
            old(self).wf(),
        ensures
            final(self).wf(),
            match r {
                Ok(id) => {
                    &&& old(self)@.len() < MAX_BLOCKS
                    &&& block@.data.len() <= MAX_BLOCK_SIZE
                    &&& id == FIRST_ID + old(self)@.len()
                    &&& final(self)@ == old(self)@.push(block@)
                },
                Err(BlockError::TooManyBlocks) => {
                    &&& old(self)@.len() >= MAX_BLOCKS
                    &&& final(self)@ == old(self)@
                },
                Err(BlockError::BlockTooLarge) => {
                    &&& old(self)@.len() < MAX_BLOCKS
                    &&& block@.data.len() > MAX_BLOCK_SIZE
                    &&& final(self)@ == old(self)@
                },
                Err(_) => false,
            },
    {
        if self.blocks.len() >= MAX_BLOCKS as usize {
            return Err(BlockError::TooManyBlocks);
        }
        if block.data.len() > MAX_BLOCK_SIZE {
            return Err(BlockError::BlockTooLarge);
        }
        let id: BlockId = FIRST_ID + self.blocks.len() as u32;
        self.blocks.push(block);
        assert(final(self)@ =~= old(self)@.push(block@));
        Ok(id)
    }

    /// The block with handle `id`.
    pub fn get(&self, id: BlockId) -> (r: Result<&Block, BlockError>)
        requires
            self.wf(),
        ensures
            r is Ok <==> self.has(id),
            r matches Ok(b) ==> b@ == self.block(id) && b@.data.len() <= MAX_BLOCK_SIZE,
            r is Err ==> r == Err::<&Block, BlockError>(BlockError::InvalidHandle(id)),
    {
        if id < FIRST_ID || (id - FIRST_ID) as usize >= self.blocks.len() {
            return Err(BlockError::InvalidHandle(id));
        }
        Ok(&self.blocks[(id - FIRST_ID) as usize])
    }
}

/// The part of a block that a read at `offset` into a buffer of `room` bytes
/// copies: what lies at and after `offset`, as far as the buffer has room.
pub open spec fn read_window(data: Seq<u8>, offset: u32, room: nat) -> Seq<u8> {
    if offset >= data.len() {
        Seq::empty()
    } else if data.len() - offset <= room {
        data.subrange(offset as int, data.len() as int)
    } else {
        data.subrange(offset as int, offset + room)
    }
}

/// Copies into `buf` what a read at `offset` yields and returns the number of
/// bytes copied; the rest of `buf` stays as it is.
pub fn read_into(data: &[u8], offset: u32, buf: &mut [u8]) -> (n: u32)
    requires
        data@.len() <= MAX_BLOCK_SIZE,
    ensures
        n == read_window(data@, offset, old(buf)@.len()).len(),
        final(buf)@ == read_window(data@, offset, old(buf)@.len()) + old(buf)@.subrange(
            n as int,
            old(buf)@.len() as int,
        ),
{
    let start: usize = offset as usize;
    if start >= data.len() {
        assert(buf@ =~= Seq::<u8>::empty() + buf@.subrange(0, buf@.len() as int));
        return 0;
    }
    let remaining: usize = data.len() - start;
    let n: usize = if remaining <= buf.len() {
        remaining
    } else {
        buf.len()
    };
    let mut i: usize = 0;
    while i < n
        invariant
            i <= n,
            n <= buf@.len(),
            start + n <= data@.len() <= MAX_BLOCK_SIZE,
            buf@.len() == old(buf)@.len(),
            forall|j: int| 0 <= j < i ==> buf@[j] == data@[start + j],
            forall|j: int| i <= j < buf@.len() ==> buf@[j] == old(buf)@[j],
        decreases n - i,
    {
        buf[i] = data[start + i];
        i = i + 1;
    }
    assert(buf@ =~= read_window(data@, offset, old(buf)@.len()) + old(buf)@.subrange(
        n as int,
        old(buf)@.len() as int,
    ));
    n as u32
}

} // verus!
