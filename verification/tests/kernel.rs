use fvm::address::Address;
use fvm::blocks::{Block, BlockError, BlockRegistry, BlockStat, FIRST_ID};
use fvm::blockstore::{Blockstore, MemoryBlockstore};
use fvm::cid::{Cid, Multihash, BLAKE2B_256, BLAKE2B_512, DAG_CBOR, IPLD_RAW, SHA2_256, SHA2_512};
use fvm::codes::account_actor_code_id;
use fvm::kernel::{DefaultKernel, KernelError};
use fvm::message::Message;
use fvm::state_tree::{ActorState, StateTree};

fn hex(bytes: &[u8]) -> String {
    let mut out = String::new();
    for b in bytes {
        out.push_str(&format!("{:02x}", b));
    }
    out
}

fn tree() -> StateTree {
    let mut tree = StateTree::new();
    tree.set_actor(1, ActorState::new(account_actor_code_id(), account_actor_code_id(), 5, 0));
    tree.set_actor(2, ActorState::new(account_actor_code_id(), account_actor_code_id(), 0, 0));
    tree.register_new_address(&Address::Secp256k1([4u8; 20])).unwrap();
    tree
}

fn message(from: Address, to: Address) -> Message {
    Message {
        version: 0,
        from,
        to,
        sequence: 0,
        value: 3,
        method_num: 2,
        params: vec![0x81, 0x01],
        gas_limit: 100,
        gas_fee_cap: 0,
        gas_premium: 0,
    }
}

fn kernel() -> DefaultKernel {
    DefaultKernel::create(&tree(), message(Address::Id(1), Address::Id(2))).unwrap()
}

#[test]
fn create_resolves_both_addresses() {
    let tree = tree();
    let mut k = DefaultKernel::create(&tree, message(Address::Secp256k1([4u8; 20]), Address::Id(2)))
        .unwrap();
    assert_eq!(k.caller(), 3);
    assert_eq!(k.receiver(), 2);
    assert_eq!(k.method_number(), 2);
    assert_eq!(k.value_received(), 3);
    assert_eq!(k.depth(), 0);
    // the registry is empty: the parameters are no block yet
    assert_eq!(k.method_params(), 0);
    for id in [0, FIRST_ID, FIRST_ID + 1] {
        assert_eq!(k.block_stat(id), Err(BlockError::InvalidHandle(id)));
    }
    // the first block that is created gets the first handle
    assert_eq!(k.block_create(IPLD_RAW, b"first"), Ok(FIRST_ID));
    // the tree is as it was
    assert_eq!(tree.lookup_id(&Address::Secp256k1([4u8; 20])), Some(Address::Id(3)));
    assert_eq!(tree.snapshot_depth(), 0);
}

#[test]
fn register_params_makes_the_parameters_a_block() {
    let mut k = kernel();
    assert_eq!(k.register_params(), Ok(FIRST_ID));
    assert_eq!(k.method_params(), FIRST_ID);
    assert_eq!(k.block_stat(FIRST_ID), Ok(BlockStat { codec: DAG_CBOR, size: 2 }));
    let mut buf = [0u8; 2];
    assert_eq!(k.block_read(FIRST_ID, 0, &mut buf), Ok(2));
    assert_eq!(buf, [0x81, 0x01]);
    // other blocks leave the handle of the parameters as it is
    let mut store = MemoryBlockstore::new();
    let id = k.block_create(IPLD_RAW, b"more").unwrap();
    assert_eq!(id, FIRST_ID + 1);
    let cid = k.block_link(&mut store, id, SHA2_256, 32).unwrap();
    assert_eq!(cid.hash().size(), 32);
    assert_eq!(k.block_open(&store, &cid), Ok(FIRST_ID + 2));
    assert_eq!(k.method_params(), FIRST_ID);
}

#[test]
fn create_fails_when_an_address_does_not_resolve() {
    let unknown = Address::Bls([5u8; 48]);
    assert_eq!(
        DefaultKernel::create(&tree(), message(unknown, Address::Id(2))).unwrap_err(),
        KernelError::SenderNotFound
    );
    assert_eq!(
        DefaultKernel::create(&tree(), message(Address::Id(1), unknown)).unwrap_err(),
        KernelError::ReceiverNotFound
    );
}

#[test]
fn root_reads_and_set_root_writes_the_receiver() {
    let mut tree = tree();
    let mut k = kernel();
    assert_eq!(k.root(&tree), Ok(account_actor_code_id()));
    let new = Cid::new_v1(DAG_CBOR, Multihash::wrap(0, b"root").unwrap());
    assert_eq!(k.set_root(&mut tree, new), Ok(()));
    assert_eq!(k.root(&tree), Ok(new));
    assert_eq!(tree.get_actor(&Address::Id(2)).unwrap().state, new);
    assert_eq!(tree.get_actor(&Address::Id(1)).unwrap().state, account_actor_code_id());

    let mut missing = DefaultKernel::create(&tree, message(Address::Id(1), Address::Id(77))).unwrap();
    assert_eq!(missing.root(&tree), Err(KernelError::ActorNotFound));
    assert_eq!(missing.set_root(&mut tree, new), Err(KernelError::ActorNotFound));
}

#[test]
fn block_read_past_end_copies_nothing() {
    let mut k = kernel();
    let id = k.block_create(IPLD_RAW, b"hello").unwrap();
    let mut buf = [9u8; 4];
    assert_eq!(k.block_read(id, 5, &mut buf), Ok(0));
    assert_eq!(k.block_read(id, 6, &mut buf), Ok(0));
    assert_eq!(k.block_read(id, u32::MAX, &mut buf), Ok(0));
    assert_eq!(buf, [9u8; 4]);
}

#[test]
fn block_read_copies_what_fits() {
    let mut k = kernel();
    let id = k.block_create(IPLD_RAW, b"hello world").unwrap();
    let mut buf = [0u8; 4];
    assert_eq!(k.block_read(id, 0, &mut buf), Ok(4));
    assert_eq!(&buf, b"hell");
    assert_eq!(k.block_read(id, 6, &mut buf), Ok(4));
    assert_eq!(&buf, b"worl");
    // fewer bytes remain than the buffer holds: the rest of it stays
    assert_eq!(k.block_read(id, 9, &mut buf), Ok(2));
    assert_eq!(&buf, b"ldrl");
    let mut empty: [u8; 0] = [];
    assert_eq!(k.block_read(id, 0, &mut empty), Ok(0));
}

#[test]
fn block_operations_refuse_unknown_handles() {
    let mut k = kernel();
    let mut store = MemoryBlockstore::new();
    let mut buf = [0u8; 4];
    for id in [0, 1, 99] {
        assert_eq!(k.block_read(id, 0, &mut buf), Err(BlockError::InvalidHandle(id)));
        assert_eq!(k.block_stat(id), Err(BlockError::InvalidHandle(id)));
        assert_eq!(
            k.block_link(&mut store, id, SHA2_256, 32),
            Err(BlockError::InvalidHandle(id))
        );
    }
}

#[test]
fn block_create_link_fetch_round_trip() {
    let mut k = kernel();
    let mut store = MemoryBlockstore::new();
    let data = b"some block of data";
    let id = k.block_create(DAG_CBOR, data).unwrap();
    assert_eq!(id, FIRST_ID);
    assert_eq!(k.block_stat(id), Ok(BlockStat { codec: DAG_CBOR, size: 18 }));
    let cid = k.block_link(&mut store, id, BLAKE2B_256, 32).unwrap();
    assert_eq!(cid.codec(), DAG_CBOR);
    assert_eq!(cid.hash().code(), BLAKE2B_256);
    assert_eq!(cid.hash().size(), 32);
    assert_eq!(store.get(&cid), Ok(Some(data.to_vec())));

    // a fresh kernel opens the block again
    let mut other = kernel();
    let opened = other.block_open(&store, &cid).unwrap();
    let mut buf = [0u8; 18];
    assert_eq!(other.block_read(opened, 0, &mut buf), Ok(18));
    assert_eq!(&buf, data);
    assert_eq!(other.block_stat(opened), Ok(BlockStat { codec: DAG_CBOR, size: 18 }));
}

#[test]
fn block_link_hashes_with_the_requested_function() {
    let mut k = kernel();
    let mut store = MemoryBlockstore::new();
    let id = k.block_create(IPLD_RAW, b"hello world").unwrap();
    let cid = k.block_link(&mut store, id, SHA2_256, 32).unwrap();
    assert_eq!(
        hex(&cid.hash().digest()),
        "b94d27b9934d3e08a52e52d7da7dabfac484efe37a5380ee9088f7ace2efcde9"
    );
    // a shorter hash is the head of the digest
    let short = k.block_link(&mut store, id, SHA2_256, 20).unwrap();
    assert_eq!(hex(&short.hash().digest()), "b94d27b9934d3e08a52e52d7da7dabfac484efe3");
    assert_eq!(short.hash().size(), 20);
    assert_ne!(short, cid);
    assert_eq!(store.get(&short), Ok(Some(b"hello world".to_vec())));
    let long = k.block_link(&mut store, id, SHA2_512, 64).unwrap();
    assert_eq!(
        hex(&long.hash().digest()),
        "309ecc489c12d6eb4cc40f50c902f2b4d0ed77ee511a7c7a9bcd3ca86d4cd86f\
         989dd35bc5ff499670da34255b45b0cfd830e81f605dcf7dc5542e93ae9cd76f"
    );
    let blake = k.block_link(&mut store, id, BLAKE2B_512, 64).unwrap();
    assert_eq!(blake.hash().size(), 64);
    assert_eq!(
        hex(&k.block_link(&mut store, id, BLAKE2B_256, 32).unwrap().hash().digest()),
        "256c83b297114d201b30179f3f0ef0cace9783622da5974326b436178aeef610"
    );
}

#[test]
fn block_link_refuses_unknown_functions_and_long_hashes() {
    let mut k = kernel();
    let mut store = MemoryBlockstore::new();
    let id = k.block_create(IPLD_RAW, b"hello world").unwrap();
    assert_eq!(
        k.block_link(&mut store, id, 0x1234, 32),
        Err(BlockError::InvalidMultihashSpec { length: 32, code: 0x1234 })
    );
    assert_eq!(
        k.block_link(&mut store, id, 0, 11),
        Err(BlockError::InvalidMultihashSpec { length: 11, code: 0 })
    );
    assert_eq!(
        k.block_link(&mut store, id, SHA2_256, 33),
        Err(BlockError::InvalidMultihashSpec { length: 33, code: SHA2_256 })
    );
    assert_eq!(
        k.block_link(&mut store, id, SHA2_512, 65),
        Err(BlockError::InvalidMultihashSpec { length: 65, code: SHA2_512 })
    );
    assert_eq!(
        k.block_link(&mut store, id, BLAKE2B_256, 300),
        Err(BlockError::InvalidMultihashSpec { length: 300, code: BLAKE2B_256 })
    );
    assert!(k.block_link(&mut store, id, SHA2_256, 0).is_ok());
}

#[test]
fn block_open_fails_on_missing_state() {
    let mut k = kernel();
    let store = MemoryBlockstore::new();
    let cid = account_actor_code_id();
    assert_eq!(k.block_open(&store, &cid), Err(BlockError::MissingState(cid)));
}

#[test]
fn registry_hands_out_consecutive_handles() {
    let mut registry = BlockRegistry::new();
    assert_eq!(registry.put(Block::new(1, vec![1])), Ok(FIRST_ID));
    assert_eq!(registry.put(Block::new(2, vec![2, 2])), Ok(FIRST_ID + 1));
    assert_eq!(registry.get(FIRST_ID).unwrap().codec(), 1);
    assert_eq!(registry.get(FIRST_ID + 1).unwrap().data(), &[2, 2]);
    assert_eq!(registry.get(FIRST_ID + 1).unwrap().size(), 2);
    assert_eq!(registry.get(0).unwrap_err(), BlockError::InvalidHandle(0));
    assert_eq!(registry.get(FIRST_ID + 2).unwrap_err(), BlockError::InvalidHandle(3));
}

#[test]
fn memory_blockstore_keeps_the_last_block_put() {
    let mut store = MemoryBlockstore::new();
    let a = account_actor_code_id();
    let b = Cid::new_v1(IPLD_RAW, Multihash::wrap(0, b"b").unwrap());
    assert_eq!(store.get(&a), Ok(None));
    store.put(&a, b"one").unwrap();
    store.put(&b, b"two").unwrap();
    store.put(&a, b"three").unwrap();
    assert_eq!(store.get(&a), Ok(Some(b"three".to_vec())));
    assert_eq!(store.get(&b), Ok(Some(b"two".to_vec())));
}
