//! The kernel: what the sandboxed code of one invocation can ask of the
//! machine.

use crate::address::{ActorID, Address};
use crate::blocks::{
    read_into, read_window, Block, BlockError, BlockId, BlockRegistry, BlockStat, BlockView,
    Codec, FIRST_ID, MAX_BLOCKS, MAX_BLOCK_SIZE,
};
use crate::blockstore::Blockstore;
use crate::cid::{hash_digest, hash_digest_len, hash_supported, Cid, Multihash, DAG_CBOR};
use crate::bytes::copy_bytes;
use crate::message::{Message, MessageView, MethodNum};
use crate::state_tree::{ActorState, StateTree};
use vstd::prelude::*;

verus! {

/// Why a kernel could not be created or could not reach its actor.
#[derive(Clone, Copy, Debug, PartialEq, Eq)]
pub enum KernelError {
    /// The sender of the message resolves to no identifier.
    SenderNotFound,
    /// The receiver of the message resolves to no identifier.
    ReceiverNotFound,
    /// The receiver has no record in the state tree.
    ActorNotFound,
    /// The kernel is not that of the invocation that is running.
    NotRunning,
}

/// Binds one invocation to its message, with both addresses resolved, and to
/// a block registry of its own. The state tree and the block store that an
/// operation works on are handed to it by the caller.
#[derive(Debug)]
pub struct DefaultKernel {
    invocation_msg: Message,
    from: ActorID,
    to: ActorID,
    /// Handle of the block that holds the parameters, once they are
    /// registered.
    params: BlockId,
    blocks: BlockRegistry,
    /// Number of invocations that were in progress when this one started.
    depth: usize,
}

/// The identifier that `k` gets when `block` is linked with the hash
/// function `hash_fun`, truncated to `hash_len` bytes.
pub open spec fn linked_cid(k: Cid, block: BlockView, hash_fun: u64, hash_len: u32) -> bool {
    &&& k.wf()
    &&& k.codec == block.codec
    &&& k.hash.spec_code() == hash_fun
    &&& k.hash@ == hash_digest(hash_fun, block.data).subrange(0, hash_len as int)
    &&& k.hash@.len() == hash_len
}

/// A block that is created and then linked can be fetched from the block
/// store under the identifier that the link returned, and is what was
/// handed to the creation: `before` and `created` are the blocks of the
/// kernel around the creation that returned the handle `id`, `stored` and
/// `linked` the blocks of the store around the link that returned `k`.
pub proof fn lemma_create_link_fetch(
    before: Seq<BlockView>,
    created: BlockRegistry,
    codec: Codec,
    data: Seq<u8>,
    id: BlockId,
    stored: Map<Cid, Seq<u8>>,
    linked: Map<Cid, Seq<u8>>,
    hash_fun: u64,
    hash_len: u32,
    k: Cid,
)
    requires
        before.len() < MAX_BLOCKS,
        id == FIRST_ID + before.len(),
        created@ == before.push(BlockView { codec, data }),
        linked_cid(k, created.block(id), hash_fun, hash_len),
        linked == stored.insert(k, created.block(id).data),
    ensures
        created.has(id),
        linked.contains_key(k),
        linked[k] == data,
        k.codec == codec,
{
}

impl DefaultKernel {
    /// The message of the invocation; its addresses are in ID form.
    pub closed spec fn message(&self) -> MessageView {
        self.invocation_msg@
    }

    /// The blocks of the invocation.
    pub closed spec fn blocks(&self) -> BlockRegistry {
        self.blocks
    }

    pub closed spec fn spec_caller(&self) -> ActorID {
        self.from
    }

    pub closed spec fn spec_receiver(&self) -> ActorID {
        self.to
    }

    pub closed spec fn spec_method_params(&self) -> BlockId {
        self.params
    }

    pub closed spec fn spec_depth(&self) -> usize {
        self.depth
    }

    /// The kernel is consistent: its invariant.
    pub closed spec fn wf(&self) -> bool {
        &&& self.blocks.wf()
        &&& self.invocation_msg.from == Address::Id(self.from)
        &&& self.invocation_msg.to == Address::Id(self.to)
    }

    /// A kernel for one invocation of `invocation_msg`, with an empty block
    /// registry. Both addresses of the message are resolved once, here. The
    /// parameters of the message are no block yet: the handle of the
    /// parameters is 0, which names no block, until
    /// [`DefaultKernel::register_params`] registers them.
    pub fn create(state_tree: &StateTree, invocation_msg: Message) -> (r: Result<
        DefaultKernel,
        KernelError,
    >)
        requires
            state_tree.wf(),
        ensures
            match r {
                Ok(k) => {
                    &&& k.wf()
                    &&& state_tree.state().resolve(invocation_msg.from) == Some(k.spec_caller())
                    &&& state_tree.state().resolve(invocation_msg.to) == Some(k.spec_receiver())
                    &&& k.message() == (MessageView {
                        from: Address::Id(k.spec_caller()),
                        to: Address::Id(k.spec_receiver()),
                        ..invocation_msg@
                    })
                    &&& k.blocks()@ == Seq::<BlockView>::empty()
                    &&& k.spec_method_params() == 0
                    &&& k.spec_depth() == 0
                },
                Err(KernelError::SenderNotFound) => state_tree.state().resolve(
                    invocation_msg.from,
                ) is None,
                Err(KernelError::ReceiverNotFound) => {
                    &&& state_tree.state().resolve(invocation_msg.from) is Some
                    &&& state_tree.state().resolve(invocation_msg.to) is None
                },
                Err(KernelError::ActorNotFound) => false,
                Err(KernelError::NotRunning) => false,
            },
    {
        let mut invocation_msg = invocation_msg;
        let from = match state_tree.lookup_id(&invocation_msg.from) {
            Some(Address::Id(id)) => id,
            _ => {
                return Err(KernelError::SenderNotFound);
            },
        };
        let to = match state_tree.lookup_id(&invocation_msg.to) {
            Some(Address::Id(id)) => id,
            _ => {
                return Err(KernelError::ReceiverNotFound);
            },
        };
        invocation_msg.from = Address::Id(from);
        invocation_msg.to = Address::Id(to);
        Ok(
            DefaultKernel {
                invocation_msg,
                from,
                to,
                params: 0,
                blocks: BlockRegistry::new(),
                depth: 0,
            },
        )
    }

    /// Registers the parameters of the message as a DAG-CBOR block under a
    /// fresh handle, which is the handle of the parameters from then on.
    pub fn register_params(&mut self) -> (r: Result<BlockId, BlockError>)
        requires
            old(self).wf(),
        ensures
            final(self).wf(),
            final(self).message() == old(self).message(),
            final(self).spec_caller() == old(self).spec_caller(),
            final(self).spec_receiver() == old(self).spec_receiver(),
            final(self).spec_depth() == old(self).spec_depth(),
            match r {
                Ok(id) => {
                    &&& old(self).blocks()@.len() < MAX_BLOCKS
                    &&& old(self).message().params.len() <= MAX_BLOCK_SIZE
                    &&& id == FIRST_ID + old(self).blocks()@.len()
                    &&& final(self).blocks()@ == old(self).blocks()@.push(
                        BlockView { codec: DAG_CBOR, data: old(self).message().params },
                    )
                    &&& final(self).spec_method_params() == id
                },
                Err(BlockError::TooManyBlocks) => {
                    &&& old(self).blocks()@.len() >= MAX_BLOCKS
                    &&& final(self).blocks()@ == old(self).blocks()@
                    &&& final(self).spec_method_params() == old(self).spec_method_params()
                },
                Err(BlockError::BlockTooLarge) => {
                    &&& old(self).blocks()@.len() < MAX_BLOCKS
                    &&& old(self).message().params.len() > MAX_BLOCK_SIZE
                    &&& final(self).blocks()@ == old(self).blocks()@
                    &&& final(self).spec_method_params() == old(self).spec_method_params()
                },
                Err(_) => false,
            },
    {
        let block = Block::new(DAG_CBOR, copy_bytes(self.invocation_msg.params.as_slice()));
        match self.blocks.put(block) {
            Ok(id) => {
                self.params = id;
                Ok(id)
            },
            Err(e) => Err(e),
        }
    }

    /// The kernel for an invocation that starts with `depth` invocations in
    /// progress.
    pub(crate) fn at_depth(self, depth: usize) -> (r: DefaultKernel)
        requires
            self.wf(),
        ensures
            r.wf(),
            r.message() == self.message(),
            r.blocks() == self.blocks(),
            r.spec_caller() == self.spec_caller(),
            r.spec_receiver() == self.spec_receiver(),
            r.spec_method_params() == self.spec_method_params(),
            r.spec_depth() == depth,
    {
        DefaultKernel { depth, ..self }
    }

    /// Number of invocations that were in progress when this one started:
    /// what tells the invocations of one message apart.
    #[verifier::when_used_as_spec(spec_depth)]
    pub fn depth(&self) -> (r: usize)
        ensures
            r == self.spec_depth(),
    {
        self.depth
    }

    /// The root of the receiver's private state.
    pub fn root(&self, state_tree: &StateTree) -> (r: Result<Cid, KernelError>)
        requires
            self.wf(),
            state_tree.wf(),
        ensures
            match state_tree.state().actor(Address::Id(self.spec_receiver())) {
                Some(actor) => r == Ok::<Cid, KernelError>(actor.state),
                None => r == Err::<Cid, KernelError>(KernelError::ActorNotFound),
            },
    {
        match state_tree.get_actor(&self.invocation_msg.to) {
            Some(actor) => Ok(actor.state),
            None => Err(KernelError::ActorNotFound),
        }
    }

    /// Replaces the root of the receiver's private state.
    pub fn set_root(&mut self, state_tree: &mut StateTree, new: Cid) -> (r: Result<
        (),
        KernelError,
    >)
        requires
            old(self).wf(),
            old(state_tree).wf(),
        ensures
            final(self).wf(),
            final(self).message() == old(self).message(),
            final(self).blocks() == old(self).blocks(),
            final(self).spec_caller() == old(self).spec_caller(),
            final(self).spec_receiver() == old(self).spec_receiver(),
            final(self).spec_depth() == old(self).spec_depth(),
            final(self).spec_method_params() == old(self).spec_method_params(),
            final(state_tree).wf(),
            final(state_tree).snapshots() == old(state_tree).snapshots(),
            match old(state_tree).state().actor(Address::Id(old(self).spec_receiver())) {
                Some(actor) => {
                    &&& r is Ok
                    &&& final(state_tree).state() == old(state_tree).state().with_actor(
                        old(self).spec_receiver(),
                        ActorState { state: new, ..actor },
                    )
                },
                None => {
                    &&& r == Err::<(), KernelError>(KernelError::ActorNotFound)
                    &&& final(state_tree).state() == old(state_tree).state()
                },
            },
    {
        let change = |actor: ActorState| -> (changed: Result<ActorState, ()>)
            ensures
                changed == Ok::<ActorState, ()>(ActorState { state: new, ..actor }),
            { Ok(ActorState { state: new, ..actor }) };
        match state_tree.mutate_actor(&self.invocation_msg.to, change) {
            Ok(()) => Ok(()),
            Err(_) => Err(KernelError::ActorNotFound),
        }
    }

    /// Fetches the block `cid` from the block store and registers it under a
    /// fresh handle.
    pub fn block_open<B: Blockstore>(&mut self, store: &B, cid: &Cid) -> (r: Result<
        BlockId,
        BlockError,
    >)
        requires
            old(self).wf(),
        ensures
            final(self).wf(),
            final(self).message() == old(self).message(),
            final(self).spec_caller() == old(self).spec_caller(),
            final(self).spec_receiver() == old(self).spec_receiver(),
            final(self).spec_depth() == old(self).spec_depth(),
            final(self).spec_method_params() == old(self).spec_method_params(),
            match r {
                Ok(id) => {
                    &&& store.blocks().contains_key(*cid)
                    &&& id == FIRST_ID + old(self).blocks()@.len()
                    &&& final(self).blocks()@ == old(self).blocks()@.push(
                        BlockView { codec: cid.codec, data: store.blocks()[*cid] },
                    )
                },
                Err(BlockError::MissingState(k)) => {
                    &&& k == *cid
                    &&& !store.blocks().contains_key(*cid)
                    &&& final(self).blocks()@ == old(self).blocks()@
                },
                Err(BlockError::TooManyBlocks) => {
                    &&& store.blocks().contains_key(*cid)
                    &&& old(self).blocks()@.len() >= MAX_BLOCKS
                    &&& final(self).blocks()@ == old(self).blocks()@
                },
                Err(BlockError::BlockTooLarge) => {
                    &&& store.blocks().contains_key(*cid)
                    &&& store.blocks()[*cid].len() > MAX_BLOCK_SIZE
                    &&& final(self).blocks()@ == old(self).blocks()@
                },
                Err(BlockError::Internal(_)) => final(self).blocks()@ == old(self).blocks()@,
                Err(_) => false,
            },
    {
        let data = match store.get(cid) {
            Ok(Some(data)) => data,
            Ok(None) => {
                return Err(BlockError::MissingState(*cid));
            },
            Err(e) => {
                return Err(BlockError::Internal(e));
            },
        };
        let block = Block::new(cid.codec(), data);
        self.blocks.put(block)
    }

    /// Registers caller-supplied bytes under a fresh handle.
    pub fn block_create(&mut self, codec: Codec, data: &[u8]) -> (r: Result<BlockId, BlockError>)
        requires
            old(self).wf(),
        ensures
            final(self).wf(),
            final(self).message() == old(self).message(),
            final(self).spec_caller() == old(self).spec_caller(),
            final(self).spec_receiver() == old(self).spec_receiver(),
            final(self).spec_depth() == old(self).spec_depth(),
            final(self).spec_method_params() == old(self).spec_method_params(),
            match r {
                Ok(id) => {
                    &&& old(self).blocks()@.len() < MAX_BLOCKS
                    &&& data@.len() <= MAX_BLOCK_SIZE
                    &&& id == FIRST_ID + old(self).blocks()@.len()
                    &&& final(self).blocks()@ == old(self).blocks()@.push(
                        BlockView { codec, data: data@ },
                    )
                    &&& final(self).blocks().has(id)
                    &&& final(self).blocks().block(id) == (BlockView { codec, data: data@ })
                },
                Err(BlockError::TooManyBlocks) => {
                    &&& old(self).blocks()@.len() >= MAX_BLOCKS
                    &&& final(self).blocks()@ == old(self).blocks()@
                },
                Err(BlockError::BlockTooLarge) => {
                    &&& old(self).blocks()@.len() < MAX_BLOCKS
                    &&& data@.len() > MAX_BLOCK_SIZE
                    &&& final(self).blocks()@ == old(self).blocks()@
                },
                Err(_) => false,
            },
    {
        self.blocks.put(Block::new(codec, copy_bytes(data)))
    }

    /// The identifier under which a block is linked: hashes its bytes with
    /// the hash function `hash_fun`, keeps the first `hash_len` bytes of the
    /// digest, and joins the codec of the block with that hash. Nothing is
    /// stored.
    pub fn block_cid(&self, id: BlockId, hash_fun: u64, hash_len: u32) -> (r: Result<
        Cid,
        BlockError,
    >)
        requires
            self.wf(),
        ensures
            match r {
                Ok(k) => {
                    &&& self.blocks().has(id)
                    &&& hash_supported(hash_fun)
                    &&& hash_len <= hash_digest_len(hash_fun)
                    &&& linked_cid(k, self.blocks().block(id), hash_fun, hash_len)
                },
                Err(BlockError::InvalidHandle(h)) => h == id && !self.blocks().has(id),
                Err(BlockError::InvalidMultihashSpec { length, code }) => {
                    &&& length == hash_len
                    &&& code == hash_fun
                    &&& self.blocks().has(id)
                    &&& (!hash_supported(hash_fun) || hash_len > hash_digest_len(hash_fun))
                },
                Err(_) => false,
            },
    {
        let block = match self.blocks.get(id) {
            Ok(block) => block,
            Err(e) => {
                return Err(e);
            },
        };
        let hash = match Multihash::digest_of(hash_fun, block.data()) {
            Some(hash) => hash,
            None => {
                return Err(BlockError::InvalidMultihashSpec { length: hash_len, code: hash_fun });
            },
        };
        if (hash.size() as u32) < hash_len {
            return Err(BlockError::InvalidMultihashSpec { length: hash_len, code: hash_fun });
        }
        let truncated = hash.truncate(hash_len as u8);
        assert(truncated@ == hash@.subrange(0, hash_len as int)) by {
            if hash_len as int == hash@.len() {
                assert(hash@.subrange(0, hash_len as int) =~= hash@);
            }
        }
        Ok(Cid::new_v1(block.codec(), truncated))
    }

    /// Makes a block durable: writes its bytes to the block store under the
    /// identifier that [`DefaultKernel::block_cid`] gives it, and returns
    /// the identifier.
    pub fn block_link<B: Blockstore>(
        &mut self,
        store: &mut B,
        id: BlockId,
        hash_fun: u64,
        hash_len: u32,
    ) -> (r: Result<Cid, BlockError>)
        requires
            old(self).wf(),
        ensures
            final(self).wf(),
            final(self).message() == old(self).message(),
            final(self).blocks() == old(self).blocks(),
            final(self).spec_caller() == old(self).spec_caller(),
            final(self).spec_receiver() == old(self).spec_receiver(),
            final(self).spec_depth() == old(self).spec_depth(),
            final(self).spec_method_params() == old(self).spec_method_params(),
            match r {
                Ok(k) => {
                    &&& old(self).blocks().has(id)
                    &&& hash_supported(hash_fun)
                    &&& hash_len <= hash_digest_len(hash_fun)
                    &&& linked_cid(k, old(self).blocks().block(id), hash_fun, hash_len)
                    &&& final(store).blocks() == old(store).blocks().insert(
                        k,
                        old(self).blocks().block(id).data,
                    )
                },
                Err(BlockError::InvalidHandle(h)) => {
                    &&& h == id
                    &&& !old(self).blocks().has(id)
                    &&& final(store).blocks() == old(store).blocks()
                },
                Err(BlockError::InvalidMultihashSpec { length, code }) => {
                    &&& length == hash_len
                    &&& code == hash_fun
                    &&& old(self).blocks().has(id)
                    &&& (!hash_supported(hash_fun) || hash_len > hash_digest_len(hash_fun))
                    &&& final(store).blocks() == old(store).blocks()
                },
                Err(BlockError::Internal(_)) => {
                    &&& old(self).blocks().has(id)
                    &&& hash_supported(hash_fun)
                    &&& hash_len <= hash_digest_len(hash_fun)
                    &&& final(store).blocks() == old(store).blocks()
                },
                Err(_) => false,
            },
    {
        let k = match self.block_cid(id, hash_fun, hash_len) {
            Ok(k) => k,
            Err(e) => {
                return Err(e);
            },
        };
        let data = match self.blocks.get(id) {
            Ok(block) => block.data(),
            Err(e) => {
                return Err(e);
            },
        };
        // The block is put as it is linked: no write is held back.
        match store.put(&k, data) {
            Ok(()) => Ok(k),
            Err(e) => Err(BlockError::Internal(e)),
        }
    }

    /// Copies the bytes of a block from `offset` on into `buf`, as far as
    /// `buf` has room, and returns how many were copied. A read at or past
    /// the end of the block copies nothing.
    pub fn block_read(&self, id: BlockId, offset: u32, buf: &mut [u8]) -> (r: Result<
        u32,
        BlockError,
    >)
        requires
            self.wf(),
        ensures
            r is Ok <==> self.blocks().has(id),
            r matches Ok(n) ==> {
                let window = read_window(self.blocks().block(id).data, offset, old(buf)@.len());
                &&& n == window.len()
                &&& final(buf)@ == window + old(buf)@.subrange(n as int, old(buf)@.len() as int)
            },
            r is Err ==> r == Err::<u32, BlockError>(BlockError::InvalidHandle(id)) && final(buf)@
                == old(buf)@,
            // A read at or past the end of a block copies nothing and is no error.
            self.blocks().has(id) && offset >= self.blocks().block(id).data.len() ==> r == Ok::<
                u32,
                BlockError,
            >(0) && final(buf)@ == old(buf)@,
    {
        match self.blocks.get(id) {
            Ok(block) => Ok(read_into(block.data(), offset, buf)),
            Err(e) => Err(e),
        }
    }

    /// Codec and size of a block.
    pub fn block_stat(&self, id: BlockId) -> (r: Result<BlockStat, BlockError>)
        requires
            self.wf(),
        ensures
            r is Ok <==> self.blocks().has(id),
            r matches Ok(stat) ==> stat.codec == self.blocks().block(id).codec && stat.size
                == self.blocks().block(id).data.len(),
            r is Err ==> r == Err::<BlockStat, BlockError>(BlockError::InvalidHandle(id)),
    {
        match self.blocks.get(id) {
            Ok(block) => Ok(BlockStat { codec: block.codec(), size: block.size() as u32 }),
            Err(e) => Err(e),
        }
    }

    /// The method that the invocation runs.
    pub fn method_number(&self) -> (r: MethodNum)
        ensures
            r == self.message().method_num,
    {
        self.invocation_msg.method_num
    }

    /// Handle of the block that holds the parameters of the invocation; 0,
    /// which names no block, while they are not registered.
    #[verifier::when_used_as_spec(spec_method_params)]
    pub fn method_params(&self) -> (r: BlockId)
        ensures
            r == self.spec_method_params(),
    {
        self.params
    }

    /// Identifier of the actor that sent the message.
    #[verifier::when_used_as_spec(spec_caller)]
    pub fn caller(&self) -> (r: ActorID)
        ensures
            r == self.spec_caller(),
    {
        self.from
    }

    /// Identifier of the actor that receives the message.
    #[verifier::when_used_as_spec(spec_receiver)]
    pub fn receiver(&self) -> (r: ActorID)
        ensures
            r == self.spec_receiver(),
    {
        self.to
    }

    /// The value that the message carries.
    pub fn value_received(&self) -> (r: u128)
        ensures
            r == self.message().value,
    {
        self.invocation_msg.value
    }
}

} // verus!
