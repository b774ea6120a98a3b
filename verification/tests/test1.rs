use fvm::address::Address;
use fvm::blockstore::{Blockstore, MemoryBlockstore};
use fvm::cid::{Cid, Multihash, IPLD_RAW};
use fvm::codes::init_actor_code_id;
use fvm::externs::TestExterns;
use fvm::gas::{PriceList, PricePeriod};
use fvm::machine::{Config, Machine};
use fvm::rand::ReplayingRand;
use fvm::state_tree::{ActorState, MutateError, StateTree};

const INIT_ACTOR_ID: u64 = 1;

#[test]
pub fn test() {
    let config = Config {
        initial_pages: 16,
        max_pages: 1024,
        max_call_depth: 4096,
        implicit_bypass: false,
        price_schedule: vec![PricePeriod {
            start: 0,
            prices: PriceList {
                storage_gas_multi: 1300,
                on_chain_message_compute_base: 38863,
                on_chain_message_storage_base: 36,
                on_chain_message_storage_per_byte: 1,
                create_actor_compute: 1108454,
                create_actor_storage: 76,
            },
        }],
    };
    let epoch = 1_000_000;
    let base_fee = 1_000;
    let mut bs = MemoryBlockstore::new();
    let ext = TestExterns::new(ReplayingRand::new(&[]));
    let cid = Cid::new_v1(IPLD_RAW, Multihash::wrap(0, &[]).unwrap());
    bs.put(&cid, vec![].as_slice()).unwrap();

    let mut tree = StateTree::new();
    let state_cid = Cid::new_v1(IPLD_RAW, Multihash::wrap(0, "test".as_bytes()).unwrap());
    let act_s = ActorState::new(init_actor_code_id(), state_cid, Default::default(), 1);

    tree.snapshot();
    tree.set_actor(INIT_ACTOR_ID, act_s);

    // Test mutate function
    let mutated: Result<(), MutateError<()>> =
        tree.mutate_actor(&Address::Id(INIT_ACTOR_ID), |mut actor| {
            actor.sequence = 2;
            Ok(actor)
        });
    mutated.unwrap();
    assert_eq!(tree.get_actor(&Address::Id(INIT_ACTOR_ID)).unwrap().sequence, 2);
    tree.clear_snapshot().unwrap();

    let root = tree.flush(&mut bs).unwrap();
    let machine: Machine<MemoryBlockstore, TestExterns> =
        Machine::new(config, epoch, base_fee, &root, bs, ext).unwrap();
    assert_eq!(machine.context().epoch(), 1_000_000);
    assert_eq!(machine.context().base_fee(), 1_000);
    assert_eq!(
        machine.state_tree().get_actor(&Address::Id(INIT_ACTOR_ID)),
        Some(ActorState::new(init_actor_code_id(), state_cid, 0, 2))
    );
}
