use fvm::account_actor::{empty_array_cid, zero_state, SYSTEM_ACTOR_ID};
use fvm::address::Address;
use fvm::call_stack::{CallError, CallStack, Dispatch};
use fvm::cid::Cid;
use fvm::codes::{account_actor_code_id, multisig_actor_code_id};
use fvm::error::ExitCode;
use fvm::gas::{GasTracker, PriceList};
use fvm::kernel::DefaultKernel;
use fvm::machine::MachineContext;
use fvm::message::{Message, METHOD_CONSTRUCTOR, METHOD_SEND};
use fvm::state_tree::{ActorState, StateTree};

fn context(max_call_depth: u32) -> MachineContext {
    MachineContext::new(
        10,
        0,
        empty_array_cid(),
        PriceList {
            storage_gas_multi: 2,
            on_chain_message_compute_base: 0,
            on_chain_message_storage_base: 0,
            on_chain_message_storage_per_byte: 0,
            create_actor_compute: 100,
            create_actor_storage: 5,
        },
        max_call_depth,
    )
}

fn tree() -> StateTree {
    let mut tree = StateTree::new();
    tree.set_actor(1, ActorState::new(account_actor_code_id(), empty_array_cid(), 50, 0));
    tree.set_actor(2, ActorState::new(multisig_actor_code_id(), empty_array_cid(), 0, 0));
    tree
}

fn message(from: Address, to: Address, value: u128, method_num: u64) -> Message {
    Message {
        version: 0,
        from,
        to,
        sequence: 0,
        value,
        method_num,
        params: vec![7],
        gas_limit: 1000,
        gas_fee_cap: 0,
        gas_premium: 0,
    }
}

fn receipt(dispatch: Dispatch) -> (ExitCode, Vec<u8>, u64) {
    match dispatch {
        Dispatch::Return(r) => (r.exit_code, r.return_data, r.gas_used),
        other => panic!("expected a receipt, got {:?}", other),
    }
}

fn kernel(dispatch: Dispatch) -> (DefaultKernel, Cid) {
    match dispatch {
        Dispatch::Invoke(c) => (c.kernel, c.code),
        other => panic!("expected an invocation, got {:?}", other),
    }
}

#[test]
fn perform_sends_value() {
    let mut tree = tree();
    let msg = message(Address::Id(1), Address::Id(2), 20, METHOD_SEND);
    let (stack, dispatch) =
        CallStack::perform(&msg, &context(10), &mut tree, GasTracker::new(1000, 3).unwrap()).unwrap();
    assert_eq!(receipt(dispatch), (ExitCode::OK, vec![], 3));
    assert_eq!(stack.depth(), 0);
    assert_eq!(stack.gas_tracker().gas_used(), 3);
    assert_eq!(tree.get_actor(&Address::Id(1)).unwrap().balance, 30);
    assert_eq!(tree.get_actor(&Address::Id(2)).unwrap().balance, 20);
    assert_eq!(tree.snapshot_depth(), 0);
}

#[test]
fn send_to_oneself_keeps_the_balance() {
    let mut tree = tree();
    let msg = message(Address::Id(1), Address::Id(1), 50, METHOD_SEND);
    let (_, dispatch) =
        CallStack::perform(&msg, &context(10), &mut tree, GasTracker::new(1000, 0).unwrap()).unwrap();
    assert_eq!(receipt(dispatch).0, ExitCode::OK);
    assert_eq!(tree.get_actor(&Address::Id(1)).unwrap().balance, 50);
}

#[test]
fn call_next_starts_and_completes_invocations() {
    let mut tree = tree();
    let ctx = context(10);
    let outer = message(Address::Id(1), Address::Id(2), 20, 5);
    let (mut stack, dispatch) =
        CallStack::perform(&outer, &ctx, &mut tree, GasTracker::new(1000, 0).unwrap()).unwrap();
    let (k, code) = kernel(dispatch);
    assert_eq!(code, multisig_actor_code_id());
    assert_eq!((k.caller(), k.receiver(), k.method_number(), k.value_received()), (1, 2, 5, 20));
    let mut params = [0u8; 4];
    assert_eq!(k.block_read(k.method_params(), 0, &mut params), Ok(1));
    assert_eq!(params, [7, 0, 0, 0]);
    assert_eq!(stack.depth(), 1);
    assert_eq!(tree.snapshot_depth(), 1);

    // the running actor calls back into the account, which rejects the call
    let inner = message(Address::Id(2), Address::Id(1), 5, 9);
    let outer_kernel = k;
    let (k, _) = kernel(stack.call_next(&mut tree, &ctx, &inner).unwrap());
    assert_eq!((k.caller(), k.receiver()), (2, 1));
    assert_eq!((outer_kernel.depth(), k.depth()), (0, 1));
    assert_eq!(stack.depth(), 2);
    assert_eq!(tree.snapshot_depth(), 2);
    assert_eq!(tree.get_actor(&Address::Id(1)).unwrap().balance, 35);
    stack.charge_gas(40).unwrap();
    let done = stack.complete(&mut tree, k, ExitCode::ErrForbidden, vec![1]).unwrap();
    // gas that a reverted call used stays used
    assert_eq!(receipt(done), (ExitCode::ErrForbidden, vec![], 40));
    assert_eq!(tree.get_actor(&Address::Id(1)).unwrap().balance, 30);
    assert_eq!(tree.get_actor(&Address::Id(2)).unwrap().balance, 20);

    // a kernel of another depth is refused, and nothing changes
    let stray = DefaultKernel::create(&tree, message(Address::Id(1), Address::Id(2), 0, 1))
        .unwrap();
    let (deeper, _) = kernel(stack.call_next(&mut tree, &ctx, &inner).unwrap());
    assert_eq!(
        stack.complete(&mut tree, stray, ExitCode::OK, vec![]).unwrap_err(),
        CallError::WrongInvocation
    );
    assert_eq!(stack.depth(), 2);
    let done = stack.complete(&mut tree, deeper, ExitCode::OK, vec![]).unwrap();
    assert_eq!(receipt(done).0, ExitCode::OK);
    assert_eq!(tree.get_actor(&Address::Id(1)).unwrap().balance, 35);

    let done = stack.complete(&mut tree, outer_kernel, ExitCode::OK, vec![1, 2]).unwrap();
    assert_eq!(receipt(done), (ExitCode::OK, vec![1, 2], 40));
    assert_eq!(stack.depth(), 0);
    assert_eq!(tree.snapshot_depth(), 0);
    assert_eq!(tree.get_actor(&Address::Id(2)).unwrap().balance, 15);
    let stray = DefaultKernel::create(&tree, message(Address::Id(1), Address::Id(2), 0, 1))
        .unwrap();
    assert_eq!(
        stack.complete(&mut tree, stray, ExitCode::OK, vec![]).unwrap_err(),
        CallError::NoInvocation
    );
}

#[test]
fn install_account_actor_charges_registers_and_installs() {
    let mut tree = tree();
    let ctx = context(10);
    let msg = message(Address::Id(1), Address::Id(2), 0, METHOD_SEND);
    let mut stack = CallStack::new(&msg, GasTracker::new(1000, 0).unwrap());
    let addr = Address::Secp256k1([3; 20]);
    let (actor, id) = stack.install_account_actor(&mut tree, &ctx, &addr).unwrap();
    assert_eq!(actor, zero_state());
    assert_eq!(id, Address::Id(3));
    // 100 + 5 * 2
    assert_eq!(stack.gas_tracker().gas_used(), 110);
    assert_eq!(tree.lookup_id(&addr), Some(Address::Id(3)));
    assert_eq!(tree.get_actor(&addr), Some(zero_state()));
    assert_eq!(zero_state().code, account_actor_code_id());
    assert_eq!((zero_state().balance, zero_state().sequence), (0, 0));

    // an address that resolves cannot be registered again: fatal
    let e = stack.install_account_actor(&mut tree, &ctx, &addr).unwrap_err();
    assert!(e.is_fatal());
    assert_eq!(e.msg(), "failed to register new address");
    assert_eq!(stack.gas_tracker().gas_used(), 220);

    let e = stack.install_account_actor(&mut tree, &ctx, &Address::Bls([0; 48])).unwrap_err();
    assert_eq!((e.is_fatal(), e.exit_code()), (false, ExitCode::SysErrIllegalArgument));
    assert_eq!(e.msg(), "cannot create the bls zero address actor");
    assert_eq!(stack.gas_tracker().gas_used(), 330);

    let mut poor = CallStack::new(&msg, GasTracker::new(109, 0).unwrap());
    let e = poor.install_account_actor(&mut tree, &ctx, &Address::Bls([1; 48])).unwrap_err();
    assert_eq!((e.is_fatal(), e.exit_code()), (false, ExitCode::SysErrOutOfGas));
    assert_eq!(e.msg(), "out of gas");
    assert_eq!(poor.gas_tracker().gas_used(), 0);
    assert_eq!(tree.lookup_id(&Address::Bls([1; 48])), None);
}

#[test]
fn constructor_message_comes_from_the_system_actor() {
    let mut tree = tree();
    let ctx = context(10);
    let addr = Address::Bls([3; 48]);
    let msg = message(Address::Id(1), addr, 10, 4);
    let (mut stack, dispatch) =
        CallStack::perform(&msg, &ctx, &mut tree, GasTracker::new(1000, 0).unwrap()).unwrap();
    let (k, code) = kernel(dispatch);
    assert_eq!(code, account_actor_code_id());
    assert_eq!((k.caller(), k.receiver()), (SYSTEM_ACTOR_ID, 3));
    assert_eq!((k.method_number(), k.value_received()), (METHOD_CONSTRUCTOR, 0));
    let mut params = [0u8; 60];
    assert_eq!(k.block_read(k.method_params(), 0, &mut params), Ok(51));
    assert_eq!(&params[..3], &[0x58, 49, 3]);
    assert_eq!(&params[3..51], &[3u8; 48]);
    assert_eq!(tree.snapshot_depth(), 2);

    // once the account is constructed, the message that waited runs on it
    let (k, code) = kernel(stack.complete(&mut tree, k, ExitCode::OK, vec![]).unwrap());
    assert_eq!(code, account_actor_code_id());
    assert_eq!((k.caller(), k.receiver(), k.method_number(), k.value_received()), (1, 3, 4, 10));
    assert_eq!(tree.snapshot_depth(), 1);
    assert_eq!(tree.get_actor(&addr).unwrap().balance, 10);
    let done = stack.complete(&mut tree, k, ExitCode::OK, vec![9]).unwrap();
    assert_eq!(receipt(done), (ExitCode::OK, vec![9], 110));
    assert_eq!(tree.get_actor(&addr).unwrap().balance, 10);
    assert_eq!(tree.snapshot_depth(), 0);
}

#[test]
fn calls_that_cannot_be_carried_out() {
    let ctx = context(10);
    let gas = || GasTracker::new(1000, 0).unwrap();
    // no record under the identifier
    let mut t = tree();
    let msg = message(Address::Id(1), Address::Id(9), 0, METHOD_SEND);
    assert_eq!(CallStack::perform(&msg, &ctx, &mut t, gas()).unwrap_err(), CallError::ActorNotFound);
    // an actor address that does not resolve
    let msg = message(Address::Id(1), Address::Actor([1; 20]), 0, METHOD_SEND);
    assert_eq!(CallStack::perform(&msg, &ctx, &mut t, gas()).unwrap_err(), CallError::ActorNotFound);
    // no identifier left for a new account
    let mut full = tree();
    full.set_actor(u64::MAX, zero_state());
    let msg = message(Address::Id(1), Address::Secp256k1([1; 20]), 0, METHOD_SEND);
    assert_eq!(CallStack::perform(&msg, &ctx, &mut full, gas()).unwrap_err(), CallError::IdsExhausted);
    assert_eq!(full.lookup_id(&Address::Secp256k1([1; 20])), None);
    // a receiver that cannot hold more
    let mut rich = tree();
    rich.set_actor(2, ActorState::new(multisig_actor_code_id(), empty_array_cid(), u128::MAX, 0));
    let msg = message(Address::Id(1), Address::Id(2), 1, METHOD_SEND);
    assert_eq!(CallStack::perform(&msg, &ctx, &mut rich, gas()).unwrap_err(), CallError::AmountOverflow);
    assert_eq!(rich.get_actor(&Address::Id(1)).unwrap().balance, 50);
    assert_eq!(rich.snapshot_depth(), 0);
}

#[test]
fn calls_that_are_rejected() {
    let ctx = context(10);
    let gas = || GasTracker::new(1000, 0).unwrap();
    let mut t = tree();
    // more value than the sender holds
    let msg = message(Address::Id(1), Address::Id(2), 51, 3);
    let (_, d) = CallStack::perform(&msg, &ctx, &mut t, gas()).unwrap();
    assert_eq!(receipt(d).0, ExitCode::SysErrInsufficientFunds);
    // value from a sender without a record
    let msg = message(Address::Id(8), Address::Id(2), 1, 3);
    let (_, d) = CallStack::perform(&msg, &ctx, &mut t, gas()).unwrap();
    assert_eq!(receipt(d).0, ExitCode::SysErrInsufficientFunds);
    // a sender that does not resolve cannot invoke
    let msg = message(Address::Secp256k1([9; 20]), Address::Id(2), 0, 3);
    let (_, d) = CallStack::perform(&msg, &ctx, &mut t, gas()).unwrap();
    assert_eq!(receipt(d).0, ExitCode::SysErrSenderInvalid);
    // but it can send nothing
    let msg = message(Address::Secp256k1([9; 20]), Address::Id(2), 0, METHOD_SEND);
    let (_, d) = CallStack::perform(&msg, &ctx, &mut t, gas()).unwrap();
    assert_eq!(receipt(d).0, ExitCode::OK);
    // the depth limit
    let msg = message(Address::Id(1), Address::Id(2), 0, 3);
    let (_, d) = CallStack::perform(&msg, &context(0), &mut t, gas()).unwrap();
    assert_eq!(receipt(d).0, ExitCode::SysErrForbidden);
    assert_eq!(t.snapshot_depth(), 0);
    assert_eq!(t.get_actor(&Address::Id(1)).unwrap().balance, 50);
}

/// A store that holds nothing and fails every request.
struct FailingStore;

impl fvm::blockstore::Blockstore for FailingStore {
    fn get(&self, _: &Cid) -> Result<Option<Vec<u8>>, fvm::blockstore::StoreError> {
        Err(fvm::blockstore::StoreError)
    }

    fn put(&mut self, _: &Cid, _: &[u8]) -> Result<(), fvm::blockstore::StoreError> {
        Err(fvm::blockstore::StoreError)
    }
}

#[test]
fn store_failures_are_internal_errors() {
    let mut store = FailingStore;
    let mut k = DefaultKernel::create(&tree(), message(Address::Id(1), Address::Id(2), 0, 2)).unwrap();
    let id = k.block_create(0x55, b"data").unwrap();
    assert_eq!(
        k.block_link(&mut store, id, 0x12, 32),
        Err(fvm::blocks::BlockError::Internal(fvm::blockstore::StoreError))
    );
    let cid = empty_array_cid();
    assert_eq!(
        k.block_open(&store, &cid),
        Err(fvm::blocks::BlockError::Internal(fvm::blockstore::StoreError))
    );
    assert_eq!(tree().flush(&mut store), Err(fvm::blockstore::StoreError));
    assert_eq!(
        StateTree::new_from_root(&store, &cid).unwrap_err(),
        fvm::state_tree::LoadError::Store(fvm::blockstore::StoreError)
    );
}

#[test]
fn try_create_account_actor_dispatches_the_constructor() {
    let mut tree = tree();
    let ctx = context(10);
    let msg = message(Address::Id(1), Address::Id(2), 0, METHOD_SEND);
    let mut stack = CallStack::new(&msg, GasTracker::new(1000, 40).unwrap());
    let addr = Address::Secp256k1([3; 20]);
    let (actor, id, container) =
        stack.try_create_account_actor(&mut tree, &ctx, &addr, None).unwrap();
    assert_eq!(actor, zero_state());
    assert_eq!(id, Address::Id(3));
    assert_eq!(tree.get_actor(&addr), Some(zero_state()));
    // exactly one message is dispatched: the constructor, from the system
    // actor, without value, with the address as parameters
    assert_eq!(stack.depth(), 1);
    assert_eq!(tree.snapshot_depth(), 1);
    assert_eq!(container.code, account_actor_code_id());
    let k = container.kernel;
    assert_eq!((k.caller(), k.receiver()), (SYSTEM_ACTOR_ID, 3));
    assert_eq!((k.method_number(), k.value_received()), (METHOD_CONSTRUCTOR, 0));
    assert_eq!(k.method_params(), 1);
    let mut params = [0u8; 30];
    assert_eq!(k.block_read(k.method_params(), 0, &mut params), Ok(22));
    assert_eq!(&params[..2], &[0x55, 1]);
    assert_eq!(&params[2..22], &[3u8; 20]);
    // 40 + 100 + 5 * 2
    assert_eq!(stack.gas_tracker().gas_used(), 150);
    // no message waits: the end of the constructor is the end of the call
    let done = stack.complete(&mut tree, k, ExitCode::OK, vec![]).unwrap();
    assert_eq!(receipt(done), (ExitCode::OK, vec![], 150));
    assert_eq!(tree.snapshot_depth(), 0);
    assert_eq!(tree.get_actor(&addr), Some(zero_state()));

    // failures install and dispatch nothing
    let e = stack
        .try_create_account_actor(&mut tree, &ctx, &Address::Bls([0; 48]), None)
        .unwrap_err();
    assert_eq!((e.is_fatal(), e.exit_code()), (false, ExitCode::SysErrIllegalArgument));
    let e = stack.try_create_account_actor(&mut tree, &ctx, &addr, None).unwrap_err();
    assert!(e.is_fatal());
    let mut poor = CallStack::new(&msg, GasTracker::new(109, 0).unwrap());
    let e = poor
        .try_create_account_actor(&mut tree, &ctx, &Address::Bls([1; 48]), None)
        .unwrap_err();
    assert_eq!((e.is_fatal(), e.exit_code()), (false, ExitCode::SysErrOutOfGas));
    assert_eq!((stack.depth(), poor.depth(), tree.snapshot_depth()), (0, 0, 0));
    assert_eq!(tree.lookup_id(&Address::Bls([1; 48])), None);
}
