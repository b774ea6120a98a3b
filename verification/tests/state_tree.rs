use fvm::account_actor::{empty_array_cid, zero_state};
use fvm::address::Address;
use fvm::blockstore::{Blockstore, MemoryBlockstore};
use fvm::cid::{Cid, Multihash, DAG_CBOR, IPLD_RAW};
use fvm::codes::{account_actor_code_id, init_actor_code_id};
use fvm::state_tree::{
    ActorState, FundsError, LoadError, MutateError, StateTree, StateTreeError,
};

fn actor(balance: u128, sequence: u64) -> ActorState {
    ActorState::new(account_actor_code_id(), empty_array_cid(), balance, sequence)
}

fn key(n: u8) -> Address {
    Address::Secp256k1([n; 20])
}

#[test]
fn set_and_get_actor() {
    let mut tree = StateTree::new();
    assert_eq!(tree.get_actor(&Address::Id(7)), None);
    tree.set_actor(7, actor(10, 1));
    tree.set_actor(3, actor(20, 2));
    tree.set_actor(9, actor(30, 3));
    assert_eq!(tree.get_actor(&Address::Id(7)), Some(actor(10, 1)));
    assert_eq!(tree.get_actor(&Address::Id(3)), Some(actor(20, 2)));
    assert_eq!(tree.get_actor(&Address::Id(9)), Some(actor(30, 3)));
    assert_eq!(tree.get_actor(&Address::Id(8)), None);
    // overwrite
    tree.set_actor(7, actor(11, 4));
    assert_eq!(tree.get_actor(&Address::Id(7)), Some(actor(11, 4)));
    assert_eq!(tree.get_actor(&Address::Id(3)), Some(actor(20, 2)));
}

#[test]
fn lookup_id_resolves_addresses() {
    let mut tree = StateTree::new();
    // an ID address is returned as it is, registered or not
    assert_eq!(tree.lookup_id(&Address::Id(42)), Some(Address::Id(42)));
    assert_eq!(tree.lookup_id(&key(1)), None);
    assert_eq!(tree.register_new_address(&key(1)), Ok(Address::Id(0)));
    assert_eq!(tree.register_new_address(&key(2)), Ok(Address::Id(1)));
    assert_eq!(tree.lookup_id(&key(1)), Some(Address::Id(0)));
    assert_eq!(tree.lookup_id(&key(2)), Some(Address::Id(1)));
    assert_eq!(tree.lookup_id(&Address::Actor([1; 20])), None);
    assert_eq!(tree.lookup_id(&Address::Bls([1; 48])), None);
}

#[test]
fn register_assigns_unused_identifiers_once() {
    let mut tree = StateTree::new();
    tree.set_actor(100, actor(0, 0));
    assert_eq!(tree.register_new_address(&key(1)), Ok(Address::Id(101)));
    assert_eq!(
        tree.register_new_address(&key(1)),
        Err(StateTreeError::AddressAlreadyRegistered)
    );
    assert_eq!(
        tree.register_new_address(&Address::Id(5)),
        Err(StateTreeError::AddressAlreadyRegistered)
    );
    assert_eq!(tree.register_new_address(&Address::Bls([1; 48])), Ok(Address::Id(102)));
    // an actor stored below the next identifier does not move it
    tree.set_actor(50, actor(0, 0));
    assert_eq!(tree.register_new_address(&key(3)), Ok(Address::Id(103)));
    // the address resolves to its actor once one is stored there
    assert_eq!(tree.get_actor(&key(3)), None);
    tree.set_actor(103, actor(1, 1));
    assert_eq!(tree.get_actor(&key(3)), Some(actor(1, 1)));
}

#[test]
fn identifiers_run_out() {
    let mut tree = StateTree::new();
    tree.set_actor(u64::MAX, actor(0, 0));
    assert_eq!(tree.register_new_address(&key(1)), Err(StateTreeError::IdsExhausted));
    assert_eq!(tree.lookup_id(&key(1)), None);
}

#[test]
fn mutate_actor_is_all_or_nothing() {
    let mut tree = StateTree::new();
    tree.set_actor(1, actor(10, 1));
    let ok: Result<(), MutateError<()>> = tree.mutate_actor(&Address::Id(1), |mut a| {
        a.sequence = 2;
        a.balance = 7;
        Ok(a)
    });
    assert_eq!(ok, Ok(()));
    assert_eq!(tree.get_actor(&Address::Id(1)), Some(actor(7, 2)));

    let failed = tree.mutate_actor(&Address::Id(1), |mut a| {
        a.sequence = 3;
        a.deduct_funds(8)?;
        Ok(a)
    });
    assert_eq!(failed, Err(MutateError::Rejected(FundsError::Insufficient)));
    assert_eq!(tree.get_actor(&Address::Id(1)), Some(actor(7, 2)));

    let missing: Result<(), MutateError<()>> = tree.mutate_actor(&Address::Id(2), |a| Ok(a));
    assert_eq!(missing, Err(MutateError::ActorNotFound));
    let unresolved: Result<(), MutateError<()>> = tree.mutate_actor(&key(1), |a| Ok(a));
    assert_eq!(unresolved, Err(MutateError::ActorNotFound));
}

#[test]
fn funds_are_checked() {
    let mut a = actor(10, 0);
    assert_eq!(a.deduct_funds(11), Err(FundsError::Insufficient));
    assert_eq!(a.balance, 10);
    assert_eq!(a.deduct_funds(10), Ok(()));
    assert_eq!(a.balance, 0);
    assert_eq!(a.deposit_funds(u128::MAX), Ok(()));
    assert_eq!(a.deposit_funds(1), Err(FundsError::Overflow));
    assert_eq!(a.balance, u128::MAX);
}

#[test]
fn revert_restores_the_state_before_the_snapshot() {
    let mut tree = StateTree::new();
    tree.set_actor(1, actor(10, 1));
    tree.register_new_address(&key(1)).unwrap();

    tree.snapshot();
    tree.set_actor(1, actor(0, 9));
    tree.set_actor(5, actor(5, 5));
    tree.register_new_address(&key(2)).unwrap();
    let _: Result<(), MutateError<()>> = tree.mutate_actor(&Address::Id(5), |mut a| {
        a.balance = 6;
        Ok(a)
    });
    assert_eq!(tree.revert_to_snapshot(), Ok(()));

    assert_eq!(tree.get_actor(&Address::Id(1)), Some(actor(10, 1)));
    assert_eq!(tree.get_actor(&Address::Id(5)), None);
    assert_eq!(tree.lookup_id(&key(1)), Some(Address::Id(2)));
    assert_eq!(tree.lookup_id(&key(2)), None);
    assert_eq!(tree.snapshot_depth(), 0);
    // the identifier that the reverted registration took is free again
    assert_eq!(tree.register_new_address(&key(3)), Ok(Address::Id(3)));
}

#[test]
fn snapshots_nest() {
    let mut tree = StateTree::new();
    tree.set_actor(1, actor(1, 0));
    tree.snapshot();
    tree.set_actor(1, actor(2, 0));
    tree.snapshot();
    tree.set_actor(1, actor(3, 0));
    assert_eq!(tree.snapshot_depth(), 2);
    assert_eq!(tree.revert_to_snapshot(), Ok(()));
    assert_eq!(tree.get_actor(&Address::Id(1)), Some(actor(2, 0)));
    tree.snapshot();
    tree.set_actor(1, actor(4, 0));
    assert_eq!(tree.clear_snapshot(), Ok(()));
    assert_eq!(tree.get_actor(&Address::Id(1)), Some(actor(4, 0)));
    assert_eq!(tree.revert_to_snapshot(), Ok(()));
    assert_eq!(tree.get_actor(&Address::Id(1)), Some(actor(1, 0)));
    assert_eq!(tree.revert_to_snapshot(), Err(StateTreeError::NoSnapshot));
    assert_eq!(tree.clear_snapshot(), Err(StateTreeError::NoSnapshot));
    assert_eq!(tree.get_actor(&Address::Id(1)), Some(actor(1, 0)));
}

#[test]
fn revert_all_goes_back_to_the_outermost_snapshot() {
    let mut tree = StateTree::new();
    tree.set_actor(1, actor(1, 0));
    tree.snapshot();
    tree.set_actor(1, actor(2, 0));
    tree.snapshot();
    tree.set_actor(1, actor(3, 0));
    tree.revert_all();
    assert_eq!(tree.snapshot_depth(), 0);
    assert_eq!(tree.get_actor(&Address::Id(1)), Some(actor(1, 0)));
    tree.revert_all();
    assert_eq!(tree.get_actor(&Address::Id(1)), Some(actor(1, 0)));
}

#[test]
fn flush_and_load_round_trip() {
    let mut tree = StateTree::new();
    tree.set_actor(7, actor(10, 1));
    tree.set_actor(3, ActorState::new(init_actor_code_id(), account_actor_code_id(), u128::MAX, u64::MAX));
    tree.register_new_address(&key(1)).unwrap();
    tree.register_new_address(&Address::Bls([3; 48])).unwrap();
    tree.register_new_address(&Address::Actor([5; 20])).unwrap();
    tree.set_actor(8, zero_state());

    let mut store = MemoryBlockstore::new();
    let root = tree.flush(&mut store).unwrap();
    assert_eq!(root.codec(), DAG_CBOR);
    assert_eq!(root.hash().code(), 0xb220);
    let bytes = store.get(&root).unwrap().unwrap();
    assert_eq!(bytes.len(), 24 + 3 * 194 + 3 * 57);

    let mut loaded = StateTree::new_from_root(&store, &root).unwrap();
    for id in [3, 7, 8, 9, 10] {
        assert_eq!(loaded.get_actor(&Address::Id(id)), tree.get_actor(&Address::Id(id)));
    }
    assert_eq!(loaded.lookup_id(&key(1)), Some(Address::Id(8)));
    assert_eq!(loaded.lookup_id(&Address::Bls([3; 48])), Some(Address::Id(9)));
    assert_eq!(loaded.lookup_id(&Address::Actor([5; 20])), Some(Address::Id(10)));
    assert_eq!(loaded.get_actor(&key(1)), Some(zero_state()));
    assert_eq!(loaded.snapshot_depth(), 0);
    // equal states have equal roots, however they came about
    assert_eq!(loaded.flush(&mut store), Ok(root));
    let mut other = StateTree::new();
    other.set_actor(3, actor(0, 0));
    other.set_actor(7, actor(10, 1));
    other.set_actor(3, ActorState::new(init_actor_code_id(), account_actor_code_id(), u128::MAX, u64::MAX));
    other.register_new_address(&key(1)).unwrap();
    other.register_new_address(&Address::Bls([3; 48])).unwrap();
    other.register_new_address(&Address::Actor([5; 20])).unwrap();
    other.set_actor(8, zero_state());
    assert_eq!(other.flush(&mut store), Ok(root));
    // and the next identifier is part of the state
    assert_eq!(loaded.register_new_address(&key(9)), Ok(Address::Id(11)));
    assert_ne!(loaded.flush(&mut store), Ok(root));
}

#[test]
fn load_refuses_what_is_no_state() {
    let mut store = MemoryBlockstore::new();
    let missing = empty_array_cid();
    assert_eq!(
        StateTree::new_from_root(&store, &missing).unwrap_err(),
        LoadError::MissingState(missing)
    );
    let mut tree = StateTree::new();
    tree.set_actor(1, actor(1, 1));
    tree.set_actor(2, actor(2, 2));
    tree.register_new_address(&key(1)).unwrap();
    tree.register_new_address(&key(2)).unwrap();
    let root = tree.flush(&mut store).unwrap();
    let good = store.get(&root).unwrap().unwrap();
    let corrupt = |bytes: Vec<u8>| {
        let mut store = MemoryBlockstore::new();
        let k = Cid::new_v1(IPLD_RAW, Multihash::wrap(0, b"corrupt").unwrap());
        store.put(&k, &bytes).unwrap();
        StateTree::new_from_root(&store, &k).map(|_| ())
    };
    assert_eq!(corrupt(good.clone()), Ok(()));
    assert_eq!(corrupt(Vec::new()), Err(LoadError::Corrupt));
    assert_eq!(corrupt(good[..good.len() - 1].to_vec()), Err(LoadError::Corrupt));
    // actors out of order
    let mut swapped = good.clone();
    swapped[24] = 2;
    swapped[24 + 194] = 1;
    assert_eq!(corrupt(swapped), Err(LoadError::Corrupt));
    // an actor at or beyond the next identifier
    let mut beyond = good.clone();
    beyond[24 + 194] = 200;
    assert_eq!(corrupt(beyond), Err(LoadError::Corrupt));
    // a digest longer than its size says
    let mut dirty = good.clone();
    dirty[24 + 8 + 81 - 1] = 1;
    assert_eq!(corrupt(dirty), Err(LoadError::Corrupt));
    // an address registered twice
    let mut twice = good.clone();
    let second = 24 + 2 * 194 + 57;
    twice[second + 1] = 1;
    for i in 1..21 {
        twice[second + i] = 1;
    }
    assert_eq!(corrupt(twice), Err(LoadError::Corrupt));
    // an unknown address form
    let mut form = good.clone();
    form[24 + 2 * 194] = 4;
    assert_eq!(corrupt(form), Err(LoadError::Corrupt));
    // an address in ID form
    let mut id_form = good.clone();
    id_form[24 + 2 * 194] = 0;
    for i in 9..49 {
        id_form[24 + 2 * 194 + i] = 0;
    }
    assert_eq!(corrupt(id_form), Err(LoadError::Corrupt));
}

#[test]
fn root_block_is_what_flush_stores() {
    let mut tree = StateTree::new();
    tree.set_actor(4, actor(9, 2));
    tree.register_new_address(&key(1)).unwrap();
    let (root, bytes) = tree.root_block();
    assert_eq!(bytes.len(), 24 + 194 + 57);
    // the header: next identifier 6, one actor, one address
    assert_eq!(&bytes[..8], &[6, 0, 0, 0, 0, 0, 0, 0]);
    assert_eq!(&bytes[8..16], &[1, 0, 0, 0, 0, 0, 0, 0]);
    assert_eq!(&bytes[16..24], &[1, 0, 0, 0, 0, 0, 0, 0]);
    assert_eq!(bytes[24], 4);
    assert_eq!(root.codec(), DAG_CBOR);
    assert_eq!(root.hash(), Multihash::digest_of(0xb220, &bytes).unwrap());
    let mut store = MemoryBlockstore::new();
    assert_eq!(store.get(&root), Ok(None));
    assert_eq!(tree.flush(&mut store), Ok(root));
    assert_eq!(store.get(&root), Ok(Some(bytes)));
}
