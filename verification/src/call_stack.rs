//! The call stack: the dispatcher that resolves the receiver of a message,
//! creates accounts on first use, moves value, and keeps one snapshot scope
//! for every call in progress.
//!
//! The sandbox that runs actor code is not part of this library. A call that
//! needs actor code hands the caller an [`InvocationContainer`]; the caller
//! runs the code, sends the messages that the code emits through
//! [`CallStack::call_next`], and reports how the code ended through
//! [`CallStack::complete`].

use crate::account_actor::{
    constructor_params, spec_constructor_params, spec_zero_state, zero_state, SYSTEM_ACTOR_ID,
};
use crate::address::{ActorID, Address};
use crate::blocks::{BlockView, FIRST_ID, MAX_BLOCK_SIZE};
use crate::cid::{Cid, DAG_CBOR};
use crate::error::{ActorError, ActorErrorView, ExitCode};
use crate::gas::{GasTracker, OutOfGas, PriceList};
use crate::invocation::InvocationContainer;
use crate::kernel::DefaultKernel;
use crate::machine::MachineContext;
use crate::message::{
    Message, MessageView, Receipt, ReceiptView, METHOD_CONSTRUCTOR, METHOD_SEND,
};
use crate::state_tree::{ActorState, StateTree, StateView};
use vstd::prelude::*;

verus! {

/// Why a call could not be carried out. None of these is the failure of an
/// actor: each one ends the whole top-level message.
#[derive(Clone, Copy, Debug, PartialEq, Eq, Structural)]
pub enum CallError {
    /// The receiver resolves to no actor and cannot be created.
    ActorNotFound,
    /// No identifier is left for a new account.
    IdsExhausted,
    /// A balance would exceed 128 bits.
    AmountOverflow,
    /// The constructor of a new account did not run to success.
    ConstructorFailed,
    /// No invocation is in progress.
    NoInvocation,
    /// The kernel is not that of the innermost invocation.
    WrongInvocation,
}

/// What the caller of the call stack is to do next.
#[derive(Debug)]
pub enum Dispatch {
    /// Run the code named in the container, bound to its kernel.
    Invoke(InvocationContainer),
    /// The call ended: hand the receipt to whoever sent the message.
    Return(Receipt),
}

/// What moving value between two actors comes to.
pub enum TransferOutcome {
    /// The value moved; the state afterwards.
    Done(StateView),
    /// The sender does not exist or holds less than the value.
    Insufficient,
    /// The receiver would hold more than 128 bits can count.
    Overflow,
}

/// Moves `value` from the actor that `from` resolves to, to the actor with
/// identifier `to`. Moving nothing needs no sender.
pub open spec fn transfer(state: StateView, from: Address, to: ActorID, value: u128)
    -> TransferOutcome {
    if value == 0 {
        TransferOutcome::Done(state)
    } else {
        match state.actor(from) {
            None => TransferOutcome::Insufficient,
            Some(sender) => if sender.balance < value {
                TransferOutcome::Insufficient
            } else {
                let debited = state.with_actor(
                    state.resolve(from)->0,
                    ActorState { balance: (sender.balance - value) as u128, ..sender },
                );
                let receiver = debited.actors[to];
                if receiver.balance + value > u128::MAX {
                    TransferOutcome::Overflow
                } else {
                    TransferOutcome::Done(
                        debited.with_actor(
                            to,
                            ActorState { balance: (receiver.balance + value) as u128, ..receiver },
                        ),
                    )
                }
            },
        }
    }
}

/// What entering a call whose receiver is resolved comes to.
pub enum EnterOutcome {
    /// The call cannot be carried out.
    Fails(CallError),
    /// The call ends at once with a failure exit code and without effect.
    Rejects(ExitCode),
    /// The call only moved value and ends with success; the state afterwards.
    Sends(StateView),
    /// Actor code is to run: the state after the value moved, the message
    /// that the kernel is bound to, and the code of the receiver.
    Starts(StateView, MessageView, Cid),
}

/// Enters a call to the actor with identifier `to`: the receiver must have a
/// record; the value moves; a plain send ends there, and any other method
/// starts an invocation, for which the sender must resolve and the
/// parameters must fit in a block.
pub open spec fn enter_outcome(state: StateView, msg: MessageView, to: ActorID) -> EnterOutcome {
    if !state.actors.contains_key(to) {
        EnterOutcome::Fails(CallError::ActorNotFound)
    } else {
        match transfer(state, msg.from, to, msg.value) {
            TransferOutcome::Insufficient => EnterOutcome::Rejects(
                ExitCode::SysErrInsufficientFunds,
            ),
            TransferOutcome::Overflow => EnterOutcome::Fails(CallError::AmountOverflow),
            TransferOutcome::Done(after) => if msg.method_num == METHOD_SEND {
                EnterOutcome::Sends(after)
            } else {
                match after.resolve(msg.from) {
                    None => EnterOutcome::Rejects(ExitCode::SysErrSenderInvalid),
                    Some(from) => if msg.params.len() > MAX_BLOCK_SIZE {
                        EnterOutcome::Rejects(ExitCode::SysErrIllegalArgument)
                    } else {
                        EnterOutcome::Starts(
                            after,
                            MessageView { from: Address::Id(from), to: Address::Id(to), ..msg },
                            after.actors[to].code,
                        )
                    },
                }
            },
        }
    }
}

/// What creating the account of an address comes to.
pub enum CreateOutcome {
    /// The gas left does not pay for the creation; nothing is charged.
    OutOfGas,
    /// The address is the reserved BLS address; the gas stays charged.
    ZeroAddress,
    /// The address cannot be registered; the gas stays charged.
    Unregistrable,
    /// The account exists: the state afterwards and the new identifier.
    Created(StateView, ActorID),
}

/// Creates the account of `addr`: charges the price of creating an actor,
/// refuses the reserved BLS address, registers the address under the next
/// identifier and installs the initial record of an account there.
pub open spec fn create_outcome(
    state: StateView,
    gas_available: u64,
    prices: PriceList,
    addr: Address,
) -> CreateOutcome {
    if prices.create_actor_gas() > gas_available {
        CreateOutcome::OutOfGas
    } else if addr.spec_is_bls_zero_address() {
        CreateOutcome::ZeroAddress
    } else if state.resolve(addr) is Some || state.next_id == u64::MAX {
        CreateOutcome::Unregistrable
    } else {
        CreateOutcome::Created(
            state.with_address(addr).with_actor(state.next_id, spec_zero_state()),
            state.next_id,
        )
    }
}

/// The message that constructs the account of `addr`: sent by the system
/// actor, without value, with all the gas that is left.
pub open spec fn constructor_message(addr: Address, gas_available: u64) -> MessageView {
    MessageView {
        version: 0,
        from: Address::Id(SYSTEM_ACTOR_ID),
        to: addr,
        sequence: 0,
        value: 0,
        method_num: METHOD_CONSTRUCTOR,
        params: spec_constructor_params(addr),
        gas_limit: gas_available,
        gas_fee_cap: 0,
        gas_premium: 0,
    }
}

/// What dispatching a message comes to.
pub enum CallOutcome {
    /// The call cannot be carried out; the state is as it was.
    Fails { error: CallError, gas_used: int },
    /// The call ends at once with a failure exit code; the state is as it
    /// was.
    Rejects { exit_code: ExitCode, gas_used: int },
    /// The call only moved value and ends with success.
    Sends { state: StateView, gas_used: int },
    /// Actor code is to run. `scopes` are the snapshots opened for it, and
    /// `pending` is the message that waits for the invocation to end, when
    /// the invocation is the constructor of an account created for it.
    Starts {
        state: StateView,
        kernel_msg: MessageView,
        code: Cid,
        pending: Option<MessageView>,
        scopes: Seq<StateView>,
        gas_used: int,
    },
}

/// Dispatches `msg` with `depth` invocations in progress.
///
/// At the depth limit the call is refused. A receiver that resolves is
/// entered. One that does not, and is no key address, cannot be found. For a
/// key address the account is created and its constructor is entered, with
/// `msg`, rewritten to the new identifier, waiting for it.
pub open spec fn call_outcome(
    state: StateView,
    gas_used: u64,
    gas_limit: u64,
    depth: nat,
    context: MachineContext,
    msg: MessageView,
) -> CallOutcome {
    if depth >= context.max_call_depth {
        CallOutcome::Rejects { exit_code: ExitCode::SysErrForbidden, gas_used: gas_used as int }
    } else {
        match state.resolve(msg.to) {
            Some(to) => match enter_outcome(state, msg, to) {
                EnterOutcome::Fails(error) => CallOutcome::Fails {
                    error,
                    gas_used: gas_used as int,
                },
                EnterOutcome::Rejects(exit_code) => CallOutcome::Rejects {
                    exit_code,
                    gas_used: gas_used as int,
                },
                EnterOutcome::Sends(after) => CallOutcome::Sends {
                    state: after,
                    gas_used: gas_used as int,
                },
                EnterOutcome::Starts(after, kernel_msg, code) => CallOutcome::Starts {
                    state: after,
                    kernel_msg,
                    code,
                    pending: None,
                    scopes: seq![state],
                    gas_used: gas_used as int,
                },
            },
            None => if !msg.to.is_signable() {
                CallOutcome::Fails { error: CallError::ActorNotFound, gas_used: gas_used as int }
            } else {
                let charged = gas_used + context.price_list.create_actor_gas();
                match create_outcome(
                    state,
                    (gas_limit - gas_used) as u64,
                    context.price_list,
                    msg.to,
                ) {
                    CreateOutcome::OutOfGas => CallOutcome::Rejects {
                        exit_code: ExitCode::SysErrOutOfGas,
                        gas_used: gas_used as int,
                    },
                    CreateOutcome::ZeroAddress => CallOutcome::Rejects {
                        exit_code: ExitCode::SysErrIllegalArgument,
                        gas_used: charged,
                    },
                    CreateOutcome::Unregistrable => CallOutcome::Fails {
                        error: CallError::IdsExhausted,
                        gas_used: charged,
                    },
                    CreateOutcome::Created(created, id) => match enter_outcome(
                        created,
                        constructor_message(msg.to, (gas_limit - charged) as u64),
                        id,
                    ) {
                        EnterOutcome::Starts(after, kernel_msg, code) => CallOutcome::Starts {
                            state: after,
                            kernel_msg,
                            code,
                            pending: Some(MessageView { to: Address::Id(id), ..msg }),
                            scopes: seq![state, created],
                            gas_used: charged,
                        },
                        _ => CallOutcome::Fails {
                            error: CallError::ConstructorFailed,
                            gas_used: charged,
                        },
                    },
                }
            },
        }
    }
}

/// Whether a dispatch `r` and what it left behind are what `outcome` says:
/// `frames`, `exhausted`, `state` and `snapshots` are what the call found,
/// the same names with `_after` what it left.
pub open spec fn dispatch_is(
    outcome: CallOutcome,
    r: Result<Dispatch, CallError>,
    frames: Seq<Option<MessageView>>,
    exhausted: Seq<bool>,
    state: StateView,
    snapshots: Seq<StateView>,
    frames_after: Seq<Option<MessageView>>,
    exhausted_after: Seq<bool>,
    gas_used_after: u64,
    state_after: StateView,
    snapshots_after: Seq<StateView>,
) -> bool {
    match outcome {
        CallOutcome::Fails { error, gas_used } => {
            &&& r == Err::<Dispatch, CallError>(error)
            &&& gas_used_after == gas_used
            &&& frames_after == frames
            &&& exhausted_after == exhausted
            &&& state_after == state
            &&& snapshots_after == snapshots
        },
        CallOutcome::Rejects { exit_code, gas_used } => {
            &&& r matches Ok(Dispatch::Return(receipt))
            &&& receipt@ == bare_receipt(exit_code, gas_used)
            &&& gas_used_after == gas_used
            &&& frames_after == frames
            &&& exhausted_after == exhausted
            &&& state_after == state
            &&& snapshots_after == snapshots
        },
        CallOutcome::Sends { state: sent, gas_used } => {
            &&& r matches Ok(Dispatch::Return(receipt))
            &&& receipt@ == bare_receipt(ExitCode::OK, gas_used)
            &&& gas_used_after == gas_used
            &&& frames_after == frames
            &&& exhausted_after == exhausted
            &&& state_after == sent
            &&& snapshots_after == snapshots
        },
        CallOutcome::Starts { state: started, kernel_msg, code, pending, scopes, gas_used } => {
            &&& r matches Ok(Dispatch::Invoke(container))
            &&& container.code == code
            &&& container.kernel.wf()
            &&& container.kernel.message() == kernel_msg
            &&& container.kernel.blocks()@ == seq![
                BlockView { codec: DAG_CBOR, data: kernel_msg.params },
            ]
            &&& container.kernel.spec_method_params() == FIRST_ID
            &&& container.kernel.spec_depth() == frames.len()
            &&& gas_used_after == gas_used
            &&& frames_after == frames.push(pending)
            &&& exhausted_after == exhausted.push(false)
            &&& state_after == started
            &&& snapshots_after == snapshots + scopes
        },
    }
}

/// Moving value between two actors that exist keeps the set of actors, the
/// registry of addresses and the next identifier.
pub proof fn lemma_transfer_keeps_actors(state: StateView, from: Address, to: ActorID, value: u128)
    requires
        state.ids_bounded(),
        state.actors.contains_key(to),
    ensures
        transfer(state, from, to, value) matches TransferOutcome::Done(after) ==> {
            &&& after.actors.dom() == state.actors.dom()
            &&& after.addresses == state.addresses
            &&& after.next_id == state.next_id
        },
{
    if let TransferOutcome::Done(after) = transfer(state, from, to, value) {
        if value != 0 {
            let sender = state.resolve(from)->0;
            assert(state.actors.contains_key(sender));
            assert(after.actors.dom() =~= state.actors.dom());
        }
    }
}

/// The constructor of an account that was just installed always starts: the
/// account is there, the message carries no value, its sender is the system
/// actor, and its parameters fit in a block.
pub proof fn lemma_constructor_starts(state: StateView, addr: Address, gas_limit: u64)
    requires
        state.resolve(addr) is None,
        state.next_id < u64::MAX,
    ensures
        ({
            let created = state.with_address(addr).with_actor(state.next_id, spec_zero_state());
            enter_outcome(created, constructor_message(addr, gas_limit), state.next_id)
                == EnterOutcome::Starts(
                created,
                MessageView {
                    from: Address::Id(SYSTEM_ACTOR_ID),
                    to: Address::Id(state.next_id),
                    ..constructor_message(addr, gas_limit)
                },
                spec_zero_state().code,
            )
        }),
{
    let id = state.next_id;
    let created = state.with_address(addr).with_actor(id, spec_zero_state());
    let constructor = constructor_message(addr, gas_limit);
    assert(constructor.params.len() <= MAX_BLOCK_SIZE) by {
        match addr {
            Address::Secp256k1(hash) => {
                assert(addr.spec_to_bytes().len() == 21);
            },
            Address::Actor(hash) => {
                assert(addr.spec_to_bytes().len() == 21);
            },
            Address::Bls(key) => {
                assert(addr.spec_to_bytes().len() == 49);
            },
            Address::Id(_) => {},
        }
    }
    assert(created.actors.contains_key(id));
    assert(transfer(created, constructor.from, id, 0) == TransferOutcome::Done(created));
    assert(created.resolve(constructor.from) == Some(SYSTEM_ACTOR_ID));
}

/// The first message to a key address that does not resolve creates exactly
/// one actor: an account, at the next identifier and with sequence 0. The
/// address resolves to it from then on, the constructor of the account is
/// the invocation that starts, and the message waits for it with its
/// receiver rewritten to the new identifier.
pub proof fn lemma_first_send_creates_account(
    state: StateView,
    gas_used: u64,
    gas_limit: u64,
    depth: nat,
    context: MachineContext,
    msg: MessageView,
)
    requires
        state.ids_bounded(),
        gas_used <= gas_limit,
        depth < context.max_call_depth,
        state.resolve(msg.to) is None,
        msg.to.is_signable(),
        !msg.to.spec_is_bls_zero_address(),
        context.price_list.create_actor_gas() <= gas_limit - gas_used,
        state.next_id < u64::MAX,
    ensures
        !state.actors.contains_key(state.next_id),
        call_outcome(state, gas_used, gas_limit, depth, context, msg) matches CallOutcome::Starts {
            state: created,
            kernel_msg,
            code,
            pending,
            scopes,
            gas_used: charged,
        } && {
            &&& created.actors == state.actors.insert(state.next_id, spec_zero_state())
            &&& created.actors[state.next_id].sequence == 0
            &&& created.resolve(msg.to) == Some(state.next_id)
            &&& code == spec_zero_state().code
            &&& kernel_msg.method_num == METHOD_CONSTRUCTOR
            &&& kernel_msg.to == Address::Id(state.next_id)
            &&& pending == Some(MessageView { to: Address::Id(state.next_id), ..msg })
            &&& scopes.len() == 2 && scopes[0] == state
            &&& charged == gas_used + context.price_list.create_actor_gas()
        },
{
    let id = state.next_id;
    let created = state.with_address(msg.to).with_actor(id, spec_zero_state());
    let charged = gas_used + context.price_list.create_actor_gas();
    let constructor = constructor_message(msg.to, (gas_limit - charged) as u64);
    assert(create_outcome(state, (gas_limit - gas_used) as u64, context.price_list, msg.to)
        == CreateOutcome::Created(created, id));
    assert(constructor.params.len() <= MAX_BLOCK_SIZE) by {
        match msg.to {
            Address::Secp256k1(hash) => {
                assert(msg.to.spec_to_bytes().len() == 21);
            },
            Address::Bls(key) => {
                assert(msg.to.spec_to_bytes().len() == 49);
            },
            _ => {},
        }
    }
    assert(created.actors.contains_key(id));
    assert(transfer(created, constructor.from, id, 0) == TransferOutcome::Done(created));
    assert(created.resolve(constructor.from) == Some(SYSTEM_ACTOR_ID));
    assert(enter_outcome(created, constructor, id) is Starts);
}

/// A message to an address that resolves to an actor creates nothing: the
/// call works on that actor, whatever it comes to, and the set of actors,
/// the registry of addresses and the next identifier stay as they are.
pub proof fn lemma_resolved_send_creates_nothing(
    state: StateView,
    gas_used: u64,
    gas_limit: u64,
    depth: nat,
    context: MachineContext,
    msg: MessageView,
    to: ActorID,
)
    requires
        state.ids_bounded(),
        state.resolve(msg.to) == Some(to),
        state.actors.contains_key(to),
    ensures
        match call_outcome(state, gas_used, gas_limit, depth, context, msg) {
            CallOutcome::Starts { state: after, kernel_msg, pending, scopes, .. } => {
                &&& pending is None
                &&& scopes == seq![state]
                &&& kernel_msg.to == Address::Id(to)
                &&& after.actors.dom() == state.actors.dom()
                &&& after.addresses == state.addresses
                &&& after.next_id == state.next_id
            },
            CallOutcome::Sends { state: after, .. } => {
                &&& after.actors.dom() == state.actors.dom()
                &&& after.addresses == state.addresses
                &&& after.next_id == state.next_id
            },
            _ => true,
        },
{
    lemma_transfer_keeps_actors(state, msg.from, to, msg.value);
}

/// One invocation in progress.
#[derive(Debug)]
struct Frame {
    /// The message that waits for this invocation to end.
    pending: Option<Message>,
    /// Whether a charge of the invocation went beyond the gas that was left.
    exhausted: bool,
}

/// The calls in progress for one top-level message, and the gas they draw
/// on. The state tree that the calls work on is handed to every operation.
#[derive(Debug)]
pub struct CallStack {
    orig_msg: Message,
    gas_tracker: GasTracker,
    frames: Vec<Frame>,
}

/// The marks of the invocations in progress after the innermost one ran out
/// of gas.
pub open spec fn mark_last(exhausted: Seq<bool>) -> Seq<bool> {
    if exhausted.len() == 0 {
        exhausted
    } else {
        exhausted.update(exhausted.len() - 1, true)
    }
}

/// A receipt without return data.
pub open spec fn bare_receipt(exit_code: ExitCode, gas_used: int) -> ReceiptView {
    ReceiptView { exit_code, return_data: Seq::empty(), gas_used: gas_used as u64 }
}

impl CallStack {
    /// For each invocation in progress, the message that waits for it to
    /// end, if one does; the innermost invocation last.
    pub closed spec fn frames(&self) -> Seq<Option<MessageView>> {
        Seq::new(
            self.frames@.len(),
            |i: int|
                match self.frames@[i].pending {
                    Some(m) => Some(m@),
                    None => None,
                },
        )
    }

    /// For each invocation in progress, whether it ran out of gas: whether
    /// one of its charges went beyond the gas that was left. Such an
    /// invocation ends as out of gas, whatever is reported of it.
    pub closed spec fn exhausted(&self) -> Seq<bool> {
        Seq::new(self.frames@.len(), |i: int| self.frames@[i].exhausted)
    }

    /// The gas that the calls draw on.
    pub closed spec fn gas(&self) -> GasTracker {
        self.gas_tracker
    }

    /// The message that started the call stack.
    pub closed spec fn origin(&self) -> MessageView {
        self.orig_msg@
    }

    /// Number of snapshot scopes that invocations in progress keep open: one
    /// each, and one more for each message that waits.
    pub open spec fn scopes(frames: Seq<Option<MessageView>>) -> nat
        decreases frames.len(),
    {
        if frames.len() == 0 {
            0
        } else {
            Self::scopes(frames.drop_last()) + 1 + if frames.last() is Some {
                1nat
            } else {
                0nat
            }
        }
    }

    /// The call stack fits the state tree: the tree is consistent and holds
    /// the snapshot scopes of the invocations in progress.
    pub open spec fn wf(&self, state_tree: &StateTree) -> bool {
        &&& state_tree.wf()
        &&& self.gas().inv()
        &&& state_tree.snapshots().len() >= Self::scopes(self.frames())
        &&& forall|i: int|
            0 <= i < self.frames().len() ==> (#[trigger] self.frames()[i] matches Some(m)
                ==> m.to is Id)
    }

    /// A call stack without invocations for the message `msg`.
    pub fn new(msg: &Message, gas_tracker: GasTracker) -> (r: CallStack)
        ensures
            r.frames() == Seq::<Option<MessageView>>::empty(),
            r.exhausted() == Seq::<bool>::empty(),
            r.gas() == gas_tracker,
            r.origin() == msg@,
    {
        let r = CallStack { orig_msg: msg.clone(), gas_tracker, frames: Vec::new() };
        assert(r.frames() =~= Seq::<Option<MessageView>>::empty());
        assert(r.exhausted() =~= Seq::<bool>::empty());
        r
    }

    /// Number of invocations in progress.
    pub fn depth(&self) -> (r: usize)
        ensures
            r == self.frames().len(),
    {
        self.frames.len()
    }

    /// The gas tracker of the message.
    pub fn gas_tracker(&self) -> (r: &GasTracker)
        ensures
            *r == self.gas(),
    {
        &self.gas_tracker
    }

    /// Every invocation has a mark.
    pub proof fn lemma_marks(&self)
        ensures
            self.exhausted().len() == self.frames().len(),
    {
    }

    /// Charges gas to the message on behalf of the innermost invocation. A
    /// charge beyond the gas that is left charges nothing and marks the
    /// invocation as out of gas.
    pub fn charge_gas(&mut self, amount: u64) -> (r: Result<(), OutOfGas>)
        ensures
            final(self).frames() == old(self).frames(),
            final(self).origin() == old(self).origin(),
            final(self).gas().limit() == old(self).gas().limit(),
            final(self).gas().inv(),
            r is Ok <==> old(self).gas().used() + amount <= old(self).gas().limit(),
            r is Ok ==> final(self).gas().used() == old(self).gas().used() + amount,
            r is Ok ==> final(self).exhausted() == old(self).exhausted(),
            r is Err ==> final(self).gas().used() == old(self).gas().used(),
            r is Err ==> final(self).exhausted() == mark_last(old(self).exhausted()),
    {
        let r = self.gas_tracker.charge_gas(amount);
        if r.is_err() {
            if let Some(frame) = self.frames.pop() {
                self.frames.push(Frame { pending: frame.pending, exhausted: true });
                assert(final(self).frames() =~= old(self).frames());
                assert(final(self).exhausted() =~= mark_last(old(self).exhausted()));
            } else {
                assert(final(self).frames() =~= old(self).frames());
                assert(final(self).exhausted() =~= mark_last(old(self).exhausted()));
            }
        }
        r
    }

    /// Installs the account of an address that does not resolve yet, and
    /// returns its record and its address in ID form: the first part of
    /// [`CallStack::try_create_account_actor`], which goes on to dispatch the
    /// constructor of the account.
    ///
    /// Running out of gas and the reserved BLS address are failures of the
    /// call; an address that cannot be registered is fatal.
    pub fn install_account_actor(
        &mut self,
        state_tree: &mut StateTree,
        machine_context: &MachineContext,
        addr: &Address,
    ) -> (r: Result<(ActorState, Address), ActorError>)
        requires
            old(self).wf(old(state_tree)),
        ensures
            final(self).wf(final(state_tree)),
            final(self).frames() == old(self).frames(),
            final(self).exhausted() == old(self).exhausted(),
            final(self).origin() == old(self).origin(),
            final(self).gas().limit() == old(self).gas().limit(),
            final(state_tree).snapshots() == old(state_tree).snapshots(),
            match create_outcome(
                old(state_tree).state(),
                (old(self).gas().limit() - old(self).gas().used()) as u64,
                machine_context.price_list,
                *addr,
            ) {
                CreateOutcome::OutOfGas => {
                    &&& r matches Err(e)
                    &&& e@ == (ActorErrorView {
                        fatal: false,
                        exit_code: ExitCode::SysErrOutOfGas,
                        msg: "out of gas"@,
                    })
                    &&& final(self).gas().used() == old(self).gas().used()
                    &&& final(state_tree).state() == old(state_tree).state()
                },
                CreateOutcome::ZeroAddress => {
                    &&& r matches Err(e)
                    &&& e@ == (ActorErrorView {
                        fatal: false,
                        exit_code: ExitCode::SysErrIllegalArgument,
                        msg: "cannot create the bls zero address actor"@,
                    })
                    &&& final(self).gas().used() == old(self).gas().used()
                        + machine_context.price_list.create_actor_gas()
                    &&& final(state_tree).state() == old(state_tree).state()
                },
                CreateOutcome::Unregistrable => {
                    &&& r matches Err(e)
                    &&& e@ == (ActorErrorView {
                        fatal: true,
                        exit_code: ExitCode::ErrPlaceholder,
                        msg: "failed to register new address"@,
                    })
                    &&& final(self).gas().used() == old(self).gas().used()
                        + machine_context.price_list.create_actor_gas()
                    &&& final(state_tree).state() == old(state_tree).state()
                },
                CreateOutcome::Created(created, id) => {
                    &&& r == Ok::<(ActorState, Address), ActorError>(
                        (spec_zero_state(), Address::Id(id)),
                    )
                    &&& final(self).gas().used() == old(self).gas().used()
                        + machine_context.price_list.create_actor_gas()
                    &&& final(state_tree).state() == created
                },
            },
    {
        let price = match machine_context.price_list.on_create_actor() {
            Some(charge) => charge.total(),
            None => None,
        };
        let charged = match price {
            Some(amount) => self.gas_tracker.charge_gas(amount),
            None => Err(OutOfGas),
        };
        if charged.is_err() {
            return Err(ActorError::new(ExitCode::SysErrOutOfGas, "out of gas".to_owned()));
        }
        if addr.is_bls_zero_address() {
            return Err(
                ActorError::new(
                    ExitCode::SysErrIllegalArgument,
                    "cannot create the bls zero address actor".to_owned(),
                ),
            );
        }
        let id_addr = match state_tree.register_new_address(addr) {
            Ok(id_addr) => id_addr,
            Err(_) => {
                return Err(ActorError::new_fatal("failed to register new address".to_owned()));
            },
        };
        let act = zero_state();
        if let Some(id) = id_addr.id() {
            state_tree.set_actor(id, act);
        }
        Ok((act, id_addr))
    }

    /// Moves `value` from the actor that `from` resolves to, to the actor
    /// with identifier `to`; a transfer that does not go through changes
    /// nothing but what is said of it below.
    fn transfer(
        state_tree: &mut StateTree,
        from: &Address,
        to: ActorID,
        value: u128,
    ) -> (r: Result<bool, CallError>)
        requires
            old(state_tree).wf(),
            old(state_tree).state().actors.contains_key(to),
        ensures
            final(state_tree).wf(),
            final(state_tree).snapshots() == old(state_tree).snapshots(),
            match transfer(old(state_tree).state(), *from, to, value) {
                TransferOutcome::Done(after) => {
                    &&& r == Ok::<bool, CallError>(true)
                    &&& final(state_tree).state() == after
                },
                TransferOutcome::Insufficient => {
                    &&& r == Ok::<bool, CallError>(false)
                    &&& final(state_tree).state() == old(state_tree).state()
                },
                TransferOutcome::Overflow => r == Err::<bool, CallError>(CallError::AmountOverflow),
            },
    {
        if value == 0 {
            return Ok(true);
        }
        let take = |actor: ActorState| -> (taken: Result<ActorState, ()>)
            ensures
                taken == (if actor.balance >= value {
                    Ok::<ActorState, ()>(
                        ActorState { balance: (actor.balance - value) as u128, ..actor },
                    )
                } else {
                    Err::<ActorState, ()>(())
                }),
            {
                if actor.balance >= value {
                    Ok(ActorState { balance: actor.balance - value, ..actor })
                } else {
                    Err(())
                }
            };
        if state_tree.mutate_actor(from, take).is_err() {
            return Ok(false);
        }
        let give = |actor: ActorState| -> (given: Result<ActorState, ()>)
            ensures
                given == (if actor.balance + value <= u128::MAX {
                    Ok::<ActorState, ()>(
                        ActorState { balance: (actor.balance + value) as u128, ..actor },
                    )
                } else {
                    Err::<ActorState, ()>(())
                }),
            {
                match actor.balance.checked_add(value) {
                    Some(sum) => Ok(ActorState { balance: sum, ..actor }),
                    None => Err(()),
                }
            };
        match state_tree.mutate_actor(&Address::Id(to), give) {
            Ok(()) => Ok(true),
            Err(_) => Err(CallError::AmountOverflow),
        }
    }

    /// Enters a call whose receiver resolves to `to`, inside the snapshot
    /// scope that was opened for it. Unless an invocation starts, the scope
    /// is closed: kept when value was sent, reverted otherwise. For an
    /// invocation a kernel is created and the parameters of the message are
    /// registered as its first block.
    fn enter(
        &mut self,
        state_tree: &mut StateTree,
        msg: Message,
        to: ActorID,
        pending: Option<Message>,
    ) -> (r: Result<Dispatch, CallError>)
        requires
            old(state_tree).wf(),
            old(self).gas().inv(),
            old(state_tree).snapshots().len() > 0,
            old(state_tree).state().resolve(msg.to) == Some(to),
        ensures
            final(state_tree).wf(),
            final(self).gas() == old(self).gas(),
            final(self).origin() == old(self).origin(),
            match enter_outcome(old(state_tree).state(), msg@, to) {
                EnterOutcome::Fails(error) => {
                    &&& r == Err::<Dispatch, CallError>(error)
                    &&& final(self).frames() == old(self).frames()
                    &&& final(self).exhausted() == old(self).exhausted()
                    &&& final(state_tree).state() == old(state_tree).snapshots().last()
                    &&& final(state_tree).snapshots() == old(state_tree).snapshots().drop_last()
                },
                EnterOutcome::Rejects(exit_code) => {
                    &&& r matches Ok(Dispatch::Return(receipt))
                    &&& receipt@ == bare_receipt(exit_code, old(self).gas().used() as int)
                    &&& final(self).frames() == old(self).frames()
                    &&& final(self).exhausted() == old(self).exhausted()
                    &&& final(state_tree).state() == old(state_tree).snapshots().last()
                    &&& final(state_tree).snapshots() == old(state_tree).snapshots().drop_last()
                },
                EnterOutcome::Sends(after) => {
                    &&& r matches Ok(Dispatch::Return(receipt))
                    &&& receipt@ == bare_receipt(ExitCode::OK, old(self).gas().used() as int)
                    &&& final(self).frames() == old(self).frames()
                    &&& final(self).exhausted() == old(self).exhausted()
                    &&& final(state_tree).state() == after
                    &&& final(state_tree).snapshots() == old(state_tree).snapshots().drop_last()
                },
                EnterOutcome::Starts(after, kernel_msg, code) => {
                    &&& r matches Ok(Dispatch::Invoke(container))
                    &&& container.code == code
                    &&& container.kernel.wf()
                    &&& container.kernel.message() == kernel_msg
                    &&& container.kernel.blocks()@ == seq![
                        BlockView { codec: DAG_CBOR, data: msg.params@ },
                    ]
                    &&& container.kernel.spec_method_params() == FIRST_ID
                    &&& container.kernel.spec_depth() == old(self).frames().len()
                    &&& final(self).frames() == old(self).frames().push(
                        match pending {
                            Some(m) => Some(m@),
                            None => None,
                        },
                    )
                    &&& final(self).exhausted() == old(self).exhausted().push(false)
                    &&& final(state_tree).state() == after
                    &&& final(state_tree).snapshots() == old(state_tree).snapshots()
                },
            },
    {
        let gas_used = self.gas_tracker.gas_used();
        let receiver = match state_tree.get_actor(&Address::Id(to)) {
            Some(receiver) => receiver,
            None => {
                let _ = state_tree.revert_to_snapshot();
                return Err(CallError::ActorNotFound);
            },
        };
        match Self::transfer(state_tree, &msg.from, to, msg.value) {
            Ok(true) => {},
            Ok(false) => {
                let _ = state_tree.revert_to_snapshot();
                return Ok(
                    Dispatch::Return(
                        Receipt {
                            exit_code: ExitCode::SysErrInsufficientFunds,
                            return_data: Vec::new(),
                            gas_used,
                        },
                    ),
                );
            },
            Err(e) => {
                let _ = state_tree.revert_to_snapshot();
                return Err(e);
            },
        }
        if msg.method_num == METHOD_SEND {
            let _ = state_tree.clear_snapshot();
            return Ok(
                Dispatch::Return(
                    Receipt { exit_code: ExitCode::OK, return_data: Vec::new(), gas_used },
                ),
            );
        }
        // Load the code of the receiver.
        let code = receiver.code;
        proof {
            let before = old(state_tree).state();
            let after = state_tree.state();
            assert(transfer(before, msg.from, to, msg.value) == TransferOutcome::Done(after));
            assert(after.addresses == before.addresses);
            assert(after.resolve(msg.to) == Some(to));
            assert(after.actors.contains_key(to));
            assert(after.actors[to].code == receiver.code);
        }
        let mut kernel = match DefaultKernel::create(state_tree, msg) {
            Ok(kernel) => kernel.at_depth(self.frames.len()),
            Err(_) => {
                let _ = state_tree.revert_to_snapshot();
                return Ok(
                    Dispatch::Return(
                        Receipt {
                            exit_code: ExitCode::SysErrSenderInvalid,
                            return_data: Vec::new(),
                            gas_used,
                        },
                    ),
                );
            },
        };
        // Register the parameters as the first block of the invocation.
        match kernel.register_params() {
            Ok(_) => {
                self.frames.push(Frame { pending, exhausted: false });
                assert(final(self).frames() =~= old(self).frames().push(
                    match pending {
                        Some(m) => Some(m@),
                        None => None,
                    },
                ));
                assert(final(self).exhausted() =~= old(self).exhausted().push(false));
                assert(enter_outcome(old(state_tree).state(), msg@, to) is Starts);
                Ok(Dispatch::Invoke(InvocationContainer::new(kernel, code)))
            },
            Err(_) => {
                let _ = state_tree.revert_to_snapshot();
                Ok(
                    Dispatch::Return(
                        Receipt {
                            exit_code: ExitCode::SysErrIllegalArgument,
                            return_data: Vec::new(),
                            gas_used,
                        },
                    ),
                )
            },
        }
    }

    /// Creates the account of an address that does not resolve yet and
    /// dispatches its constructor, so that the account is initialised like
    /// any actor that is constructed.
    ///
    /// The price of creating an actor is charged, the reserved BLS address is
    /// refused, the address is registered under the next identifier and the
    /// initial record of an account is installed there: see
    /// [`create_outcome`]. Then the constructor message is made, as
    /// [`constructor_message`] has it: from the system actor to `addr`,
    /// without value, with `addr` as its parameters and all the gas that is
    /// left. It is dispatched in a snapshot scope of its own, and the
    /// invocation to run is handed out with the record and the address in ID
    /// form. `waiting` is the message that waits for the account, if one
    /// does; its receiver is rewritten to the new identifier, and the scope
    /// that was opened for it must be open.
    ///
    /// Running out of gas and the reserved BLS address are failures of the
    /// call; an address that cannot be registered is fatal.
    pub fn try_create_account_actor(
        &mut self,
        state_tree: &mut StateTree,
        machine_context: &MachineContext,
        addr: &Address,
        waiting: Option<Message>,
    ) -> (r: Result<(ActorState, Address, InvocationContainer), ActorError>)
        requires
            old(self).wf(old(state_tree)),
            waiting is Some ==> old(state_tree).snapshots().len() > Self::scopes(
                old(self).frames(),
            ),
        ensures
            final(self).wf(final(state_tree)),
            final(self).origin() == old(self).origin(),
            final(self).gas().limit() == old(self).gas().limit(),
            match create_outcome(
                old(state_tree).state(),
                (old(self).gas().limit() - old(self).gas().used()) as u64,
                machine_context.price_list,
                *addr,
            ) {
                CreateOutcome::OutOfGas => {
                    &&& r matches Err(e)
                    &&& e@ == (ActorErrorView {
                        fatal: false,
                        exit_code: ExitCode::SysErrOutOfGas,
                        msg: "out of gas"@,
                    })
                    &&& final(self).gas().used() == old(self).gas().used()
                    &&& final(self).frames() == old(self).frames()
                    &&& final(self).exhausted() == old(self).exhausted()
                    &&& final(state_tree).state() == old(state_tree).state()
                    &&& final(state_tree).snapshots() == old(state_tree).snapshots()
                },
                CreateOutcome::ZeroAddress => {
                    &&& r matches Err(e)
                    &&& e@ == (ActorErrorView {
                        fatal: false,
                        exit_code: ExitCode::SysErrIllegalArgument,
                        msg: "cannot create the bls zero address actor"@,
                    })
                    &&& final(self).gas().used() == old(self).gas().used()
                        + machine_context.price_list.create_actor_gas()
                    &&& final(self).frames() == old(self).frames()
                    &&& final(self).exhausted() == old(self).exhausted()
                    &&& final(state_tree).state() == old(state_tree).state()
                    &&& final(state_tree).snapshots() == old(state_tree).snapshots()
                },
                CreateOutcome::Unregistrable => {
                    &&& r matches Err(e)
                    &&& e@ == (ActorErrorView {
                        fatal: true,
                        exit_code: ExitCode::ErrPlaceholder,
                        msg: "failed to register new address"@,
                    })
                    &&& final(self).gas().used() == old(self).gas().used()
                        + machine_context.price_list.create_actor_gas()
                    &&& final(self).frames() == old(self).frames()
                    &&& final(self).exhausted() == old(self).exhausted()
                    &&& final(state_tree).state() == old(state_tree).state()
                    &&& final(state_tree).snapshots() == old(state_tree).snapshots()
                },
                CreateOutcome::Created(created, id) => {
                    &&& r matches Ok((actor, id_addr, container))
                    &&& actor == spec_zero_state()
                    &&& id_addr == Address::Id(id)
                    &&& container.code == spec_zero_state().code
                    &&& container.kernel.wf()
                    &&& container.kernel.message() == (MessageView {
                        from: Address::Id(SYSTEM_ACTOR_ID),
                        to: Address::Id(id),
                        ..constructor_message(
                            *addr,
                            (old(self).gas().limit() - old(self).gas().used()
                                - machine_context.price_list.create_actor_gas()) as u64,
                        )
                    })
                    &&& container.kernel.blocks()@ == seq![
                        BlockView { codec: DAG_CBOR, data: spec_constructor_params(*addr) },
                    ]
                    &&& container.kernel.spec_method_params() == FIRST_ID
                    &&& container.kernel.spec_depth() == old(self).frames().len()
                    &&& final(self).gas().used() == old(self).gas().used()
                        + machine_context.price_list.create_actor_gas()
                    &&& final(self).frames() == old(self).frames().push(
                        match waiting {
                            Some(m) => Some(MessageView { to: Address::Id(id), ..m@ }),
                            None => None,
                        },
                    )
                    &&& final(self).exhausted() == old(self).exhausted().push(false)
                    &&& final(state_tree).state() == created
                    &&& final(state_tree).snapshots() == old(state_tree).snapshots().push(created)
                },
            },
    {
        let ghost frames = self.frames();
        let ghost state = state_tree.state();
        let (actor, id_addr) = match self.install_account_actor(state_tree, machine_context, addr) {
            Ok(installed) => installed,
            Err(e) => {
                return Err(e);
            },
        };
        let id = match id_addr.id() {
            Some(id) => id,
            None => {
                return Err(ActorError::new_fatal("failed to register new address".to_owned()));
            },
        };
        let pending = match waiting {
            Some(mut waiting) => {
                waiting.to = id_addr;
                Some(waiting)
            },
            None => None,
        };
        let constructor = Message {
            version: 0,
            from: Address::Id(SYSTEM_ACTOR_ID),
            to: *addr,
            sequence: 0,
            value: 0,
            method_num: METHOD_CONSTRUCTOR,
            params: constructor_params(addr),
            gas_limit: self.gas_tracker.gas_available(),
            gas_fee_cap: 0,
            gas_premium: 0,
        };
        let ghost created = state_tree.state();
        let ghost waits: Option<MessageView> = if pending is Some {
            Some(pending->0@)
        } else {
            None
        };
        proof {
            state_tree.lemma_ids_bounded();
            lemma_constructor_starts(state, *addr, constructor.gas_limit);
            assert(constructor@ == constructor_message(*addr, constructor.gas_limit));
            Self::lemma_scopes_push(frames, waits);
        }
        state_tree.snapshot();
        assert(state_tree.snapshots().drop_last() =~= old(state_tree).snapshots());
        match self.enter(state_tree, constructor, id, pending) {
            Ok(Dispatch::Invoke(container)) => Ok((actor, id_addr, container)),
            _ => Err(ActorError::new_fatal("failed to dispatch the constructor".to_owned())),
        }
    }

    /// Opening the scopes of one more invocation adds them to the count.
    pub proof fn lemma_scopes_push(frames: Seq<Option<MessageView>>, pending: Option<MessageView>)
        ensures
            Self::scopes(frames.push(pending)) == Self::scopes(frames) + 1 + if pending is Some {
                1nat
            } else {
                0nat
            },
    {
        assert(frames.push(pending).drop_last() =~= frames);
    }

    /// Dispatches a message: the single entry for the top-level message and
    /// for every message that actor code sends while it runs.
    ///
    /// A call that establishes nothing leaves the state as it was. See
    /// [`call_outcome`] for what a call comes to.
    pub fn call_next(
        &mut self,
        state_tree: &mut StateTree,
        machine_context: &MachineContext,
        msg: &Message,
    ) -> (r: Result<Dispatch, CallError>)
        requires
            old(self).wf(old(state_tree)),
        ensures
            final(self).wf(final(state_tree)),
            final(self).origin() == old(self).origin(),
            final(self).gas().limit() == old(self).gas().limit(),
            dispatch_is(
                call_outcome(
                    old(state_tree).state(),
                    old(self).gas().used(),
                    old(self).gas().limit(),
                    old(self).frames().len(),
                    *machine_context,
                    msg@,
                ),
                r,
                old(self).frames(),
                old(self).exhausted(),
                old(state_tree).state(),
                old(state_tree).snapshots(),
                final(self).frames(),
                final(self).exhausted(),
                final(self).gas().used(),
                final(state_tree).state(),
                final(state_tree).snapshots(),
            ),
    {
        // Clone because we may override the receiver in the message.
        let msg = msg.clone();
        let ghost state = state_tree.state();
        let ghost snapshots = state_tree.snapshots();
        let ghost frames = self.frames();
        let gas_used = self.gas_tracker.gas_used();
        if self.frames.len() >= machine_context.max_call_depth as usize {
            return Ok(
                Dispatch::Return(
                    Receipt {
                        exit_code: ExitCode::SysErrForbidden,
                        return_data: Vec::new(),
                        gas_used,
                    },
                ),
            );
        }
        // Get the receiver; this will resolve the address.
        match state_tree.lookup_id(&msg.to) {
            Some(Address::Id(to)) => {
                state_tree.snapshot();
                let r = self.enter(state_tree, msg, to, None);
                proof {
                    Self::lemma_scopes_push(frames, None);
                    assert(snapshots.push(state).drop_last() =~= snapshots);
                    assert(snapshots.push(state) =~= snapshots + seq![state]);
                }
                r
            },
            _ => {
                if !(matches!(msg.to, Address::Bls(_)) || matches!(msg.to, Address::Secp256k1(_))) {
                    return Err(CallError::ActorNotFound);
                }
                // Try to create an account actor if the receiver is a key address.
                state_tree.snapshot();
                assert(snapshots.push(state).drop_last() =~= snapshots);
                let addr = msg.to;
                proof {
                    if state.next_id < u64::MAX {
                        lemma_constructor_starts(
                            state,
                            addr,
                            (self.gas().limit() - self.gas().used()
                                - machine_context.price_list.create_actor_gas()) as u64,
                        );
                    }
                }
                match self.try_create_account_actor(state_tree, machine_context, &addr, Some(msg)) {
                    Ok((_, _, container)) => {
                        proof {
                            let created = state_tree.state();
                            let pending = self.frames().last();
                            Self::lemma_scopes_push(frames, pending);
                            assert(snapshots.push(state).push(created) =~= snapshots + seq![
                                state,
                                created,
                            ]);
                        }
                        Ok(Dispatch::Invoke(container))
                    },
                    Err(e) => {
                        let _ = state_tree.revert_to_snapshot();
                        if e.is_fatal() {
                            return Err(CallError::IdsExhausted);
                        }
                        Ok(
                            Dispatch::Return(
                                Receipt {
                                    exit_code: e.exit_code(),
                                    return_data: Vec::new(),
                                    gas_used: self.gas_tracker.gas_used(),
                                },
                            ),
                        )
                    },
                }
            },
        }
    }

    /// Starts the call stack of a top-level message: makes the stack and
    /// dispatches the message.
    pub fn perform(
        msg: &Message,
        machine_context: &MachineContext,
        state_tree: &mut StateTree,
        gas_tracker: GasTracker,
    ) -> (r: Result<(CallStack, Dispatch), CallError>)
        requires
            old(state_tree).wf(),
        ensures
            final(state_tree).wf(),
            r matches Ok((stack, _)) ==> stack.wf(final(state_tree)) && stack.origin() == msg@
                && stack.gas().limit() == gas_tracker.limit(),
            ({
                let outcome = call_outcome(
                    old(state_tree).state(),
                    gas_tracker.used(),
                    gas_tracker.limit(),
                    0,
                    *machine_context,
                    msg@,
                );
                match r {
                    Ok((stack, dispatch)) => dispatch_is(
                        outcome,
                        Ok(dispatch),
                        Seq::empty(),
                        Seq::empty(),
                        old(state_tree).state(),
                        old(state_tree).snapshots(),
                        stack.frames(),
                        stack.exhausted(),
                        stack.gas().used(),
                        final(state_tree).state(),
                        final(state_tree).snapshots(),
                    ),
                    Err(error) => {
                        &&& outcome matches CallOutcome::Fails { error: e, .. }
                        &&& e == error
                        &&& final(state_tree).state() == old(state_tree).state()
                        &&& final(state_tree).snapshots() == old(state_tree).snapshots()
                    },
                }
            }),
    {
        proof {
            use_type_invariant(&gas_tracker);
        }
        let mut call_stack = CallStack::new(msg, gas_tracker);
        match call_stack.call_next(state_tree, machine_context, msg) {
            Ok(dispatch) => Ok((call_stack, dispatch)),
            Err(e) => Err(e),
        }
    }

    /// The exit code with which an invocation ends that reported
    /// `exit_code`: out of gas when it ran out of gas.
    pub open spec fn ended_with(ran_out: bool, exit_code: ExitCode) -> ExitCode {
        if ran_out {
            ExitCode::SysErrOutOfGas
        } else {
            exit_code
        }
    }

    /// The receipt of an invocation that ended with `exit_code`: a failed
    /// invocation returns no data.
    pub open spec fn receipt_of(exit_code: ExitCode, return_data: Seq<u8>, gas_used: u64)
        -> ReceiptView {
        ReceiptView {
            exit_code,
            return_data: if exit_code == ExitCode::OK {
                return_data
            } else {
                Seq::empty()
            },
            gas_used,
        }
    }

    /// Reports that the innermost invocation ended with `exit_code` and
    /// `return_data`, and gives up its kernel: a kernel serves one invocation
    /// only. The report of any other kernel is refused and changes nothing.
    ///
    /// An invocation that ran out of gas ends as out of gas, whatever is
    /// reported of it. The scope of the invocation is kept when it succeeded
    /// and reverted when it failed, and the receipt goes to whoever sent the
    /// message. When the invocation was the constructor of a new account and
    /// ran out of gas, the message that waited for it ends as out of gas;
    /// any other failure of the constructor is fatal, and after its success
    /// the waiting message is entered: see [`enter_outcome`]. Unless the
    /// waiting message starts an invocation, its scope is closed too.
    pub fn complete(
        &mut self,
        state_tree: &mut StateTree,
        kernel: DefaultKernel,
        exit_code: ExitCode,
        return_data: Vec<u8>,
    ) -> (r: Result<Dispatch, CallError>)
        requires
            old(self).wf(old(state_tree)),
        ensures
            final(self).wf(final(state_tree)),
            final(self).origin() == old(self).origin(),
            final(self).gas() == old(self).gas(),
            old(self).frames().len() == 0 ==> {
                &&& r == Err::<Dispatch, CallError>(CallError::NoInvocation)
                &&& final(self).frames() == old(self).frames()
                &&& final(self).exhausted() == old(self).exhausted()
                &&& final(state_tree).state() == old(state_tree).state()
                &&& final(state_tree).snapshots() == old(state_tree).snapshots()
            },
            old(self).frames().len() > 0 && kernel.spec_depth() + 1 != old(self).frames().len()
                ==> {
                &&& r == Err::<Dispatch, CallError>(CallError::WrongInvocation)
                &&& final(self).frames() == old(self).frames()
                &&& final(self).exhausted() == old(self).exhausted()
                &&& final(state_tree).state() == old(state_tree).state()
                &&& final(state_tree).snapshots() == old(state_tree).snapshots()
            },
            old(self).frames().len() > 0 && kernel.spec_depth() + 1 == old(self).frames().len()
                ==> {
                let rest = old(self).frames().drop_last();
                let marks = old(self).exhausted().drop_last();
                let snapshots = old(state_tree).snapshots();
                let outer = snapshots.len() - 2;
                let ended = Self::ended_with(old(self).exhausted().last(), exit_code);
                match old(self).frames().last() {
                    None => {
                        &&& r matches Ok(Dispatch::Return(receipt))
                        &&& receipt@ == Self::receipt_of(
                            ended,
                            return_data@,
                            old(self).gas().used(),
                        )
                        &&& final(self).frames() == rest
                        &&& final(self).exhausted() == marks
                        &&& final(state_tree).snapshots() == snapshots.drop_last()
                        &&& final(state_tree).state() == if ended == ExitCode::OK {
                            old(state_tree).state()
                        } else {
                            snapshots.last()
                        }
                    },
                    Some(waiting) => if old(self).exhausted().last() {
                        &&& r matches Ok(Dispatch::Return(receipt))
                        &&& receipt@ == bare_receipt(
                            ExitCode::SysErrOutOfGas,
                            old(self).gas().used() as int,
                        )
                        &&& final(self).frames() == rest
                        &&& final(self).exhausted() == marks
                        &&& final(state_tree).snapshots() == snapshots.subrange(0, outer)
                        &&& final(state_tree).state() == snapshots[outer]
                    } else if exit_code != ExitCode::OK {
                        &&& r == Err::<Dispatch, CallError>(CallError::ConstructorFailed)
                        &&& final(self).frames() == rest
                        &&& final(self).exhausted() == marks
                        &&& final(state_tree).snapshots() == snapshots.subrange(0, outer)
                        &&& final(state_tree).state() == snapshots[outer]
                    } else {
                        match enter_outcome(old(state_tree).state(), waiting, waiting.to->Id_0) {
                            EnterOutcome::Fails(error) => {
                                &&& r == Err::<Dispatch, CallError>(error)
                                &&& final(self).frames() == rest
                                &&& final(self).exhausted() == marks
                                &&& final(state_tree).snapshots() == snapshots.subrange(0, outer)
                                &&& final(state_tree).state() == snapshots[outer]
                            },
                            EnterOutcome::Rejects(code) => {
                                &&& r matches Ok(Dispatch::Return(receipt))
                                &&& receipt@ == bare_receipt(code, old(self).gas().used() as int)
                                &&& final(self).frames() == rest
                                &&& final(self).exhausted() == marks
                                &&& final(state_tree).snapshots() == snapshots.subrange(0, outer)
                                &&& final(state_tree).state() == snapshots[outer]
                            },
                            EnterOutcome::Sends(after) => {
                                &&& r matches Ok(Dispatch::Return(receipt))
                                &&& receipt@ == bare_receipt(
                                    ExitCode::OK,
                                    old(self).gas().used() as int,
                                )
                                &&& final(self).frames() == rest
                                &&& final(self).exhausted() == marks
                                &&& final(state_tree).snapshots() == snapshots.subrange(0, outer)
                                &&& final(state_tree).state() == after
                            },
                            EnterOutcome::Starts(after, kernel_msg, code) => {
                                &&& r matches Ok(Dispatch::Invoke(container))
                                &&& container.code == code
                                &&& container.kernel.wf()
                                &&& container.kernel.message() == kernel_msg
                                &&& container.kernel.blocks()@ == seq![
                                    BlockView { codec: DAG_CBOR, data: kernel_msg.params },
                                ]
                                &&& container.kernel.spec_method_params() == FIRST_ID
                                &&& container.kernel.spec_depth() == rest.len()
                                &&& final(self).frames() == rest.push(None)
                                &&& final(self).exhausted() == marks.push(false)
                                &&& final(state_tree).snapshots() == snapshots.drop_last()
                                &&& final(state_tree).state() == after
                            },
                        }
                    },
                }
            },
    {
        let ghost frames = self.frames();
        let ghost snapshots = state_tree.snapshots();
        if self.frames.len() == 0 {
            return Err(CallError::NoInvocation);
        }
        if kernel.depth() != self.frames.len() - 1 {
            return Err(CallError::WrongInvocation);
        }
        let frame = match self.frames.pop() {
            Some(frame) => frame,
            None => {
                assert(final(self).frames() =~= old(self).frames());
                return Err(CallError::NoInvocation);
            },
        };
        proof {
            assert(self.frames() =~= frames.drop_last());
            assert(self.exhausted() =~= old(self).exhausted().drop_last());
            assert(frames =~= frames.drop_last().push(frames.last()));
            Self::lemma_scopes_push(frames.drop_last(), frames.last());
        }
        let gas_used = self.gas_tracker.gas_used();
        let reported = exit_code;
        let exit_code = if frame.exhausted {
            ExitCode::SysErrOutOfGas
        } else {
            reported
        };
        if exit_code.is_success() {
            let _ = state_tree.clear_snapshot();
        } else {
            let _ = state_tree.revert_to_snapshot();
        }
        let waiting = match frame.pending {
            None => {
                let data = if exit_code.is_success() {
                    return_data
                } else {
                    Vec::new()
                };
                return Ok(Dispatch::Return(Receipt { exit_code, return_data: data, gas_used }));
            },
            Some(waiting) => waiting,
        };
        assert(frames.last() == Some(waiting@));
        assert(snapshots.drop_last().drop_last() =~= snapshots.subrange(0, snapshots.len() - 2));
        if !exit_code.is_success() {
            let _ = state_tree.revert_to_snapshot();
            if frame.exhausted {
                return Ok(
                    Dispatch::Return(Receipt { exit_code, return_data: Vec::new(), gas_used }),
                );
            }
            return Err(CallError::ConstructorFailed);
        }
        let to = match waiting.to {
            Address::Id(to) => to,
            _ => {
                let _ = state_tree.revert_to_snapshot();
                return Err(CallError::ConstructorFailed);
            },
        };
        let r = self.enter(state_tree, waiting, to, None);
        proof {
            Self::lemma_scopes_push(frames.drop_last(), None);
        }
        r
    }
}

} // verus!
