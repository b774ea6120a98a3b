//! The machine: the entry point that validates and prices a message, reserves
//! its gas, has it executed, settles the fees, and commits or reverts.

use crate::account_actor::{BURNT_FUNDS_ACTOR_ID, REWARD_ACTOR_ID};
use crate::address::{ActorID, Address};
use crate::blocks::{BlockError, BlockId, BlockView, FIRST_ID};
use crate::blockstore::Blockstore;
use crate::call_stack::{
    bare_receipt, call_outcome, enter_outcome, mark_last, CallError, CallOutcome, CallStack,
    Dispatch, EnterOutcome,
};
use crate::cid::{hash_digest_len, hash_supported, Cid, DAG_CBOR};
use crate::codes::{is_account_actor, spec_is_account_actor};
use crate::error::{ActorError, ActorErrorView, ExitCode};
use crate::externs::Externs;
use crate::gas::{
    compute_gas_outputs, gas_outputs, price_list_by_epoch, price_period_at, GasOutputsSpec,
    GasTracker, OutOfGas, PriceList, PricePeriod,
};
use crate::invocation::InvocationContainer;
use crate::kernel::{linked_cid, DefaultKernel, KernelError};
use crate::message::{
    ChainEpoch, Message, MessageError, MessageView, MethodNum, Receipt, ReceiptView,
};
use crate::state_tree::{root_of, ActorState, LoadError, StateTree, StateView};
use vstd::prelude::*;

verus! {

/// How a message came to the machine.
#[derive(Clone, Copy, Debug, PartialEq, Eq, Structural)]
pub enum ApplyKind {
    /// Submitted from outside: every check applies.
    Explicit,
    /// Synthesized by the chain itself.
    Implicit,
}

/// Execution context supplied to the machine. The epoch, the base fee and
/// the prices are fixed; the state root is renewed whenever the machine
/// flushes its state.
#[derive(Clone, Copy, Debug, PartialEq, Eq)]
pub struct MachineContext {
    /// The epoch at which the machine runs.
    pub epoch: ChainEpoch,
    /// The base fee that is in effect when the machine runs.
    pub base_fee: u128,
    pub state_root: Cid,
    pub price_list: PriceList,
    /// Most invocations that may be in progress at once.
    pub max_call_depth: u32,
}

impl MachineContext {
    pub fn new(
        epoch: ChainEpoch,
        base_fee: u128,
        state_root: Cid,
        price_list: PriceList,
        max_call_depth: u32,
    ) -> (r: MachineContext)
        ensures
            r == (MachineContext { epoch, base_fee, state_root, price_list, max_call_depth }),
    {
        MachineContext { epoch, base_fee, state_root, price_list, max_call_depth }
    }

    pub fn epoch(self) -> (r: ChainEpoch)
        ensures
            r == self.epoch,
    {
        self.epoch
    }

    pub fn base_fee(&self) -> (r: u128)
        ensures
            r == self.base_fee,
    {
        self.base_fee
    }

    pub fn state_root(&self) -> (r: &Cid)
        ensures
            *r == self.state_root,
    {
        &self.state_root
    }

    pub fn price_list(&self) -> (r: &PriceList)
        ensures
            *r == self.price_list,
    {
        &self.price_list
    }

    pub fn max_call_depth(&self) -> (r: u32)
        ensures
            r == self.max_call_depth,
    {
        self.max_call_depth
    }

    pub fn set_state_root(&mut self, state_root: Cid)
        ensures
            *final(self) == (MachineContext { state_root, ..*old(self) }),
    {
        self.state_root = state_root
    }
}

/// What applying a message returned, as plain values.
pub struct ApplyRetView {
    pub msg_receipt: ReceiptView,
    pub act_error: Option<ActorErrorView>,
    pub penalty: u128,
    pub miner_tip: u128,
}

/// What applying a message returned.
#[derive(Clone, Debug, PartialEq, Eq)]
pub struct ApplyRet {
    /// Receipt of the message: what is stored on chain.
    pub msg_receipt: Receipt,
    /// The error that ended the message, if one did.
    pub act_error: Option<ActorError>,
    /// What the miner is charged for including the message.
    pub penalty: u128,
    /// What the miner is tipped for including the message.
    pub miner_tip: u128,
}

impl View for ApplyRet {
    type V = ApplyRetView;

    open spec fn view(&self) -> ApplyRetView {
        ApplyRetView {
            msg_receipt: self.msg_receipt@,
            act_error: match self.act_error {
                Some(e) => Some(e@),
                None => None,
            },
            penalty: self.penalty,
            miner_tip: self.miner_tip,
        }
    }
}

impl ApplyRet {
    /// What a message that failed before it was executed returns: no gas
    /// used, nothing returned, no tip.
    pub open spec fn failed(
        exit_code: ExitCode,
        miner_penalty: u128,
        error: Option<ActorErrorView>,
    ) -> ApplyRetView {
        ApplyRetView {
            msg_receipt: ReceiptView { exit_code, return_data: Seq::empty(), gas_used: 0 },
            act_error: error,
            penalty: miner_penalty,
            miner_tip: 0,
        }
    }

    #[inline]
    pub fn prevalidation_fail(
        exit_code: ExitCode,
        miner_penalty: u128,
        error: Option<ActorError>,
    ) -> (r: ApplyRet)
        ensures
            r@ == Self::failed(
                exit_code,
                miner_penalty,
                match error {
                    Some(e) => Some(e@),
                    None => None,
                },
            ),
    {
        ApplyRet {
            msg_receipt: Receipt { exit_code, return_data: Vec::new(), gas_used: 0 },
            penalty: miner_penalty,
            act_error: error,
            miner_tip: 0,
        }
    }
}

/// How the machine is set up.
#[derive(Debug)]
pub struct Config {
    /// Memory pages that a sandbox starts with.
    pub initial_pages: usize,
    /// Most memory pages that a sandbox may grow to.
    pub max_pages: usize,
    /// Most invocations that may be in progress at once.
    pub max_call_depth: u32,
    /// Whether implicit messages bypass the checks of the sender's code,
    /// sequence and balance, and pay no fees.
    pub implicit_bypass: bool,
    /// The price lists, each with the epoch from which it holds.
    pub price_schedule: Vec<PricePeriod>,
}

impl Clone for Config {
    fn clone(&self) -> (r: Config)
        ensures
            r.initial_pages == self.initial_pages,
            r.max_pages == self.max_pages,
            r.max_call_depth == self.max_call_depth,
            r.implicit_bypass == self.implicit_bypass,
            r.price_schedule@ == self.price_schedule@,
    {
        Config {
            initial_pages: self.initial_pages,
            max_pages: self.max_pages,
            max_call_depth: self.max_call_depth,
            implicit_bypass: self.implicit_bypass,
            price_schedule: self.price_schedule.clone(),
        }
    }
}

/// Why the machine could not go on. Each of these but `Busy` and `Idle`
/// is fatal to the message at hand: whatever it had changed is reverted.
#[derive(Clone, Copy, Debug, PartialEq, Eq)]
pub enum MachineError {
    /// A message is being executed: it must end before another starts.
    Busy,
    /// No message is being executed.
    Idle,
    /// The message is malformed.
    InvalidMessage(MessageError),
    /// A price or an amount exceeds what the machine can count.
    Overflow,
    /// A call could not be carried out.
    Call(CallError),
    /// A fee could not be paid out to its recipient.
    Settlement,
    /// The price schedule holds no prices for the epoch.
    NoPriceList,
    /// The state could not be loaded.
    State(LoadError),
    /// The block store failed.
    Store,
}

/// What the caller of the machine is to do next.
#[derive(Debug)]
pub enum Step {
    /// Run the code named in the container, bound to its kernel, then report
    /// how it ended.
    Invoke(InvocationContainer),
    /// A message sent by the running code ended: hand it the receipt.
    Return(Receipt),
    /// The top-level message is applied.
    Done(ApplyRet),
}

/// What the checks before execution come to.
pub enum Preflight {
    /// The message is malformed.
    Invalid,
    /// A price or an amount exceeds what the machine can count.
    Overflow,
    /// The message fails with an exit code, a penalty for the miner and a
    /// diagnostic; nothing is executed.
    Rejected(ExitCode, u128, Seq<char>),
    /// The gas is reserved: the state afterwards, the sender, the gas that
    /// the inclusion of the message costs, and whether the fees are bypassed.
    Reserved { state: StateView, sender: ActorID, inclusion: u64, bypass: bool },
}

/// The checks that a message passes before it is executed, and the
/// reservation of its gas.
///
/// The message must carry gas, and the cost of including it on chain must not
/// exceed its gas limit. The sender must exist. Unless the checks are
/// bypassed, the sender must be an account, its sequence must be that of the
/// message, and its balance must cover `gas_fee_cap * gas_limit`, which is
/// then taken from it. The sequence of the sender goes up by one.
pub open spec fn preflight(
    state: StateView,
    context: MachineContext,
    implicit_bypass: bool,
    msg: MessageView,
    raw_length: usize,
    kind: ApplyKind,
) -> Preflight {
    let cost = context.price_list.message_gas(raw_length as int);
    let penalty = context.base_fee * msg.gas_limit;
    let gas_cost = msg.gas_fee_cap * msg.gas_limit;
    let bypass = kind == ApplyKind::Implicit && implicit_bypass;
    if msg.gas_limit == 0 {
        Preflight::Invalid
    } else if cost > u64::MAX {
        Preflight::Overflow
    } else if cost > msg.gas_limit {
        if context.base_fee * cost > u128::MAX {
            Preflight::Overflow
        } else {
            Preflight::Rejected(
                ExitCode::SysErrOutOfGas,
                (context.base_fee * cost) as u128,
                "Out of gas"@,
            )
        }
    } else if penalty > u128::MAX {
        Preflight::Overflow
    } else {
        match state.actor(msg.from) {
            None => Preflight::Rejected(
                ExitCode::SysErrSenderInvalid,
                penalty as u128,
                "Sender invalid"@,
            ),
            Some(sender) => if !bypass && !spec_is_account_actor(sender.code) {
                Preflight::Rejected(
                    ExitCode::SysErrSenderInvalid,
                    penalty as u128,
                    "send not from account actor"@,
                )
            } else if !bypass && msg.sequence != sender.sequence {
                Preflight::Rejected(
                    ExitCode::SysErrSenderStateInvalid,
                    penalty as u128,
                    "actor sequence invalid"@,
                )
            } else if !bypass && sender.balance < gas_cost {
                Preflight::Rejected(
                    ExitCode::SysErrSenderStateInvalid,
                    penalty as u128,
                    "actor balance less than needed"@,
                )
            } else if sender.sequence == u64::MAX {
                Preflight::Overflow
            } else {
                Preflight::Reserved {
                    state: state.with_actor(
                        state.resolve(msg.from)->0,
                        ActorState {
                            balance: if bypass {
                                sender.balance
                            } else {
                                (sender.balance - gas_cost) as u128
                            },
                            sequence: (sender.sequence + 1) as u64,
                            ..sender
                        },
                    ),
                    sender: state.resolve(msg.from)->0,
                    inclusion: cost as u64,
                    bypass,
                }
            },
        }
    }
}

/// Whether a message passes the pricing: it carries gas, the cost of
/// including it is within its gas limit and within what the machine can
/// count, and so is the penalty `base_fee * gas_limit`.
pub open spec fn priced(context: MachineContext, msg: MessageView, raw_length: usize) -> bool {
    &&& msg.gas_limit != 0
    &&& context.price_list.message_gas(raw_length as int) <= msg.gas_limit
    &&& context.base_fee * msg.gas_limit <= u128::MAX
}

/// Whether the code, the sequence and the balance of the sender are checked:
/// always for an explicit message, and for an implicit one unless the
/// machine is set up to bypass the checks.
pub open spec fn checked(implicit_bypass: bool, kind: ApplyKind) -> bool {
    !(kind == ApplyKind::Implicit && implicit_bypass)
}

/// The state after `amount` is added to the balance of the actor `to`;
/// `None` when there is no such actor or it cannot hold as much. Nothing is
/// asked of the recipient of no funds.
pub open spec fn deposit(state: StateView, to: ActorID, amount: int) -> Option<StateView> {
    if amount == 0 {
        Some(state)
    } else if !state.actors.contains_key(to) {
        None
    } else if state.actors[to].balance + amount > u128::MAX {
        None
    } else {
        Some(
            state.with_actor(
                to,
                ActorState {
                    balance: (state.actors[to].balance + amount) as u128,
                    ..state.actors[to]
                },
            ),
        )
    }
}

/// The state after a settled fee is paid out: the base fee burn and the
/// over-estimation burn to the burnt funds actor, the tip to the reward actor
/// and the refund to the sender.
pub open spec fn settle(state: StateView, sender: ActorID, out: GasOutputsSpec) -> Option<
    StateView,
> {
    match deposit(state, BURNT_FUNDS_ACTOR_ID, out.base_fee_burn) {
        None => None,
        Some(burned) => match deposit(burned, REWARD_ACTOR_ID, out.miner_tip) {
            None => None,
            Some(tipped) => match deposit(tipped, BURNT_FUNDS_ACTOR_ID, out.over_estimation_burn) {
                None => None,
                Some(settled) => deposit(settled, sender, out.refund),
            },
        },
    }
}

/// The diagnostic that goes with an exit code: none with success.
pub open spec fn failure_of(exit_code: ExitCode) -> Option<ActorErrorView> {
    if exit_code == ExitCode::OK {
        None
    } else {
        Some(ActorErrorView { fatal: false, exit_code, msg: "message failed"@ })
    }
}

/// How a message ends once its receipt is known.
pub enum Conclusion {
    /// A fee could not be paid out: the message is reverted.
    Fatal,
    /// The message is applied: the state afterwards and what is returned.
    Applied(StateView, ApplyRetView),
}

/// Ends a message: settles the fee that was reserved for it against the gas
/// that it used, unless the fees are bypassed.
pub open spec fn conclude(
    state: StateView,
    context: MachineContext,
    msg: MessageView,
    sender: ActorID,
    bypass: bool,
    receipt: ReceiptView,
) -> Conclusion {
    if bypass {
        Conclusion::Applied(
            state,
            ApplyRetView {
                msg_receipt: receipt,
                act_error: failure_of(receipt.exit_code),
                penalty: 0,
                miner_tip: 0,
            },
        )
    } else {
        let out = gas_outputs(
            receipt.gas_used as int,
            msg.gas_limit as int,
            context.base_fee as int,
            msg.gas_fee_cap as int,
            msg.gas_premium as int,
        );
        match settle(state, sender, out) {
            None => Conclusion::Fatal,
            Some(settled) => Conclusion::Applied(
                settled,
                ApplyRetView {
                    msg_receipt: receipt,
                    act_error: failure_of(receipt.exit_code),
                    penalty: out.miner_penalty as u128,
                    miner_tip: out.miner_tip as u128,
                },
            ),
        }
    }
}

/// A message that pays fees and is applied shares out exactly the fee that
/// was reserved for it, `gas_fee_cap * gas_limit`, however it ended: the
/// base fee burn and the over-estimation burn, the tip that is returned, and
/// the refund, none of them negative, are paid out as [`settle`] has it.
pub proof fn lemma_applied_message_conserves_fee(
    state: StateView,
    context: MachineContext,
    msg: MessageView,
    sender: ActorID,
    receipt: ReceiptView,
)
    requires
        receipt.gas_used <= msg.gas_limit,
        msg.gas_fee_cap * msg.gas_limit <= u128::MAX,
        context.base_fee * msg.gas_limit <= u128::MAX,
    ensures
        conclude(state, context, msg, sender, false, receipt) matches Conclusion::Applied(
            settled,
            ret,
        ) ==> {
            let out = gas_outputs(
                receipt.gas_used as int,
                msg.gas_limit as int,
                context.base_fee as int,
                msg.gas_fee_cap as int,
                msg.gas_premium as int,
            );
            &&& settle(state, sender, out) == Some(settled)
            &&& ret.msg_receipt == receipt
            &&& ret.miner_tip == out.miner_tip
            &&& ret.penalty == out.miner_penalty
            &&& out.base_fee_burn >= 0 && out.miner_tip >= 0 && out.over_estimation_burn >= 0
                && out.refund >= 0
            &&& out.base_fee_burn + out.miner_tip + out.over_estimation_burn + out.refund
                == msg.gas_fee_cap * msg.gas_limit
        },
{
    crate::gas::lemma_gas_conservation(
        receipt.gas_used as int,
        msg.gas_limit as int,
        context.base_fee as int,
        msg.gas_fee_cap as int,
        msg.gas_premium as int,
    );
}

/// The message that a machine is executing.
pub struct InFlight {
    /// The message.
    pub msg: MessageView,
    /// Identifier of its sender.
    pub sender: ActorID,
    /// Whether its fees are bypassed.
    pub bypass: bool,
    /// For each invocation in progress, the message that waits for it.
    pub frames: Seq<Option<MessageView>>,
    /// For each invocation in progress, whether it ran out of gas.
    pub exhausted: Seq<bool>,
    /// Gas used so far.
    pub gas_used: u64,
}

struct Running {
    msg: Message,
    sender: ActorID,
    bypass: bool,
    call_stack: CallStack,
}

/// The core of the virtual machine: applies messages, one at a time, to the
/// state tree that it owns.
pub struct Machine<B: Blockstore, E: Externs> {
    config: Config,
    /// The context for the execution.
    context: MachineContext,
    /// Blockstore to use for this machine instance.
    blockstore: B,
    /// What the machine asks of the node that hosts it.
    externs: E,
    /// The state tree. It is updated with the results of every message.
    state_tree: StateTree,
    /// The message in execution.
    running: Option<Running>,
}

impl<B: Blockstore, E: Externs> Machine<B, E> {
    /// What the state tree holds now.
    pub closed spec fn state(&self) -> StateView {
        self.state_tree.state()
    }

    /// The blocks of the block store.
    pub closed spec fn store(&self) -> Map<Cid, Seq<u8>> {
        self.blockstore.blocks()
    }

    pub closed spec fn spec_context(&self) -> MachineContext {
        self.context
    }

    /// Whether implicit messages bypass the sender checks and the fees.
    pub open spec fn implicit_bypass(&self) -> bool {
        self.spec_config().implicit_bypass
    }

    /// The message in execution, if there is one.
    pub closed spec fn in_flight(&self) -> Option<InFlight> {
        match self.running {
            None => None,
            Some(run) => Some(
                InFlight {
                    msg: run.msg@,
                    sender: run.sender,
                    bypass: run.bypass,
                    frames: run.call_stack.frames(),
                    exhausted: run.call_stack.exhausted(),
                    gas_used: run.call_stack.gas().used(),
                },
            ),
        }
    }

    /// The states that the open snapshot scopes hold: first the state before
    /// the message in execution, then that at the start of each call in
    /// progress. Empty when no message is in execution.
    pub closed spec fn checkpoints(&self) -> Seq<StateView> {
        self.state_tree.snapshots()
    }

    /// The machine is consistent: its invariant.
    pub closed spec fn wf(&self) -> bool {
        &&& self.state_tree.wf()
        &&& self.context.max_call_depth == self.config.max_call_depth
        &&& match self.running {
            None => self.state_tree.snapshots().len() == 0,
            Some(run) => {
                &&& run.call_stack.wf(&self.state_tree)
                &&& run.call_stack.frames().len() > 0
                &&& self.state_tree.snapshots().len() == 1 + CallStack::scopes(
                    run.call_stack.frames(),
                )
                &&& run.call_stack.gas().limit() == run.msg.gas_limit
                &&& run.call_stack.origin() == run.msg@
                &&& !run.bypass ==> {
                    &&& run.msg.gas_fee_cap * run.msg.gas_limit <= u128::MAX
                    &&& self.context.base_fee * run.msg.gas_limit <= u128::MAX
                }
            },
        }
    }

    /// The bytes that stand for the current state in the block store.
    pub closed spec fn encoding(&self) -> Seq<u8> {
        self.state_tree.encoding()
    }

    /// A machine at `epoch` over the state stored under `state_root` in the
    /// block store, with the prices that the schedule of `config` has for
    /// the epoch.
    pub fn new(
        config: Config,
        epoch: ChainEpoch,
        base_fee: u128,
        state_root: &Cid,
        blockstore: B,
        externs: E,
    ) -> (r: Result<Machine<B, E>, MachineError>)
        ensures
            match r {
                Ok(machine) => {
                    &&& machine.wf()
                    &&& price_period_at(config.price_schedule@, epoch) matches Some(period)
                    &&& machine.spec_context() == (MachineContext {
                        epoch,
                        base_fee,
                        state_root: *state_root,
                        price_list: config.price_schedule@[period].prices,
                        max_call_depth: config.max_call_depth,
                    })
                    &&& machine.spec_config() == config
                    &&& machine.spec_externs() == externs
                    &&& machine.store() == blockstore.blocks()
                    &&& blockstore.blocks().contains_key(*state_root)
                    &&& machine.encoding() == blockstore.blocks()[*state_root]
                    &&& machine.in_flight() is None
                    &&& machine.checkpoints().len() == 0
                },
                Err(MachineError::NoPriceList) => price_period_at(config.price_schedule@, epoch)
                    is None,
                Err(MachineError::State(LoadError::MissingState(k))) => {
                    &&& price_period_at(config.price_schedule@, epoch) is Some
                    &&& k == *state_root
                    &&& !blockstore.blocks().contains_key(*state_root)
                },
                Err(MachineError::State(LoadError::Corrupt)) => {
                    &&& price_period_at(config.price_schedule@, epoch) is Some
                    &&& blockstore.blocks().contains_key(*state_root)
                    &&& forall|tree: StateTree| #[trigger]
                        tree.wf() ==> tree.encoding() != blockstore.blocks()[*state_root]
                },
                Err(MachineError::State(LoadError::Store(_))) => price_period_at(
                    config.price_schedule@,
                    epoch,
                ) is Some,
                Err(_) => false,
            },
    {
        let price_list = match price_list_by_epoch(config.price_schedule.as_slice(), epoch) {
            Some(price_list) => price_list,
            None => {
                return Err(MachineError::NoPriceList);
            },
        };
        let context = MachineContext::new(
            epoch,
            base_fee,
            *state_root,
            price_list,
            config.max_call_depth,
        );
        let state_tree = match StateTree::new_from_root(&blockstore, &context.state_root) {
            Ok(state_tree) => state_tree,
            Err(e) => {
                return Err(MachineError::State(e));
            },
        };
        Ok(Machine { config, context, blockstore, externs, state_tree, running: None })
    }

    /// Persists the state to the block store and makes its root the state
    /// root of the context. Refused while a message is in execution.
    pub fn flush(&mut self) -> (r: Result<Cid, MachineError>)
        requires
            old(self).wf(),
        ensures
            final(self).wf(),
            final(self).state() == old(self).state(),
            final(self).encoding() == old(self).encoding(),
            final(self).spec_config() == old(self).spec_config(),
            final(self).spec_externs() == old(self).spec_externs(),
            final(self).in_flight() == old(self).in_flight(),
            final(self).checkpoints() == old(self).checkpoints(),
            match r {
                Ok(root) => {
                    &&& old(self).in_flight() is None
                    &&& root == root_of(old(self).encoding())
                    &&& final(self).store() == old(self).store().insert(
                        root,
                        old(self).encoding(),
                    )
                    &&& final(self).spec_context() == (MachineContext {
                        state_root: root,
                        ..old(self).spec_context()
                    })
                },
                Err(MachineError::Busy) => {
                    &&& old(self).in_flight() is Some
                    &&& final(self).store() == old(self).store()
                    &&& final(self).spec_context() == old(self).spec_context()
                },
                Err(MachineError::Store) => {
                    &&& old(self).in_flight() is None
                    &&& final(self).store() == old(self).store()
                    &&& final(self).spec_context() == old(self).spec_context()
                },
                Err(_) => false,
            },
    {
        if self.running.is_some() {
            return Err(MachineError::Busy);
        }
        match self.state_tree.flush(&mut self.blockstore) {
            Ok(root) => {
                self.context.set_state_root(root);
                Ok(root)
            },
            Err(_) => Err(MachineError::Store),
        }
    }

    /// How the machine is set up.
    pub closed spec fn spec_config(&self) -> Config {
        self.config
    }

    /// What the machine asks of the node that hosts it.
    pub closed spec fn spec_externs(&self) -> E {
        self.externs
    }

    /// A copy of the set-up of the machine.
    pub fn config(&self) -> (r: Config)
        ensures
            r.initial_pages == self.spec_config().initial_pages,
            r.max_pages == self.spec_config().max_pages,
            r.max_call_depth == self.spec_config().max_call_depth,
            r.implicit_bypass == self.spec_config().implicit_bypass,
            r.price_schedule@ == self.spec_config().price_schedule@,
    {
        self.config.clone()
    }

    pub fn blockstore(&self) -> (r: &B)
        ensures
            r.blocks() == self.store(),
    {
        &self.blockstore
    }

    pub fn externs(&self) -> (r: &E)
        ensures
            *r == self.spec_externs(),
    {
        &self.externs
    }

    /// Gives up the machine for its block store.
    pub fn into_blockstore(self) -> (r: B)
        ensures
            r.blocks() == self.store(),
    {
        self.blockstore
    }

    #[verifier::when_used_as_spec(spec_context)]
    pub fn context(&self) -> (r: MachineContext)
        ensures
            r == self.spec_context(),
    {
        self.context
    }

    /// The state tree of the machine.
    pub fn state_tree(&self) -> (r: &StateTree)
        ensures
            r.state() == self.state(),
            r.snapshots() == self.checkpoints(),
            r.encoding() == self.encoding(),
            self.wf() ==> r.wf(),
    {
        &self.state_tree
    }

    /// Whether a message is in execution.
    pub fn is_executing(&self) -> (r: bool)
        ensures
            r == self.in_flight().is_some(),
    {
        self.running.is_some()
    }

    /// Adds `amount` to the balance of the actor `to`.
    fn deposit(state_tree: &mut StateTree, to: ActorID, amount: u128) -> (paid: bool)
        requires
            old(state_tree).wf(),
        ensures
            final(state_tree).wf(),
            final(state_tree).snapshots() == old(state_tree).snapshots(),
            match deposit(old(state_tree).state(), to, amount as int) {
                Some(after) => paid && final(state_tree).state() == after,
                None => !paid && final(state_tree).state() == old(state_tree).state(),
            },
    {
        if amount == 0 {
            return true;
        }
        let give = |actor: ActorState| -> (given: Result<ActorState, ()>)
            ensures
                given == (if actor.balance + amount <= u128::MAX {
                    Ok::<ActorState, ()>(
                        ActorState { balance: (actor.balance + amount) as u128, ..actor },
                    )
                } else {
                    Err::<ActorState, ()>(())
                }),
            {
                match actor.balance.checked_add(amount) {
                    Some(sum) => Ok(ActorState { balance: sum, ..actor }),
                    None => Err(()),
                }
            };
        state_tree.mutate_actor(&Address::Id(to), give).is_ok()
    }

    /// Ends the message in execution with `receipt`: settles its fee and
    /// keeps what it changed, or reverts it when a fee cannot be paid out.
    fn finish(
        state_tree: &mut StateTree,
        context: &MachineContext,
        msg: &Message,
        sender: ActorID,
        bypass: bool,
        receipt: Receipt,
    ) -> (r: Result<ApplyRet, MachineError>)
        requires
            old(state_tree).wf(),
            old(state_tree).snapshots().len() == 1,
            receipt.gas_used <= msg.gas_limit,
            !bypass ==> msg.gas_fee_cap * msg.gas_limit <= u128::MAX && context.base_fee
                * msg.gas_limit <= u128::MAX,
        ensures
            final(state_tree).wf(),
            final(state_tree).snapshots().len() == 0,
            match conclude(old(state_tree).state(), *context, msg@, sender, bypass, receipt@) {
                Conclusion::Fatal => r == Err::<ApplyRet, MachineError>(MachineError::Settlement)
                    && final(state_tree).state() == old(state_tree).snapshots()[0],
                Conclusion::Applied(state, ret) => {
                    &&& r matches Ok(apply_ret)
                    &&& apply_ret@ == ret
                    &&& final(state_tree).state() == state
                },
            },
    {
        let act_error = if receipt.exit_code.is_success() {
            None
        } else {
            Some(ActorError::new(receipt.exit_code, "message failed".to_owned()))
        };
        if bypass {
            let _ = state_tree.clear_snapshot();
            return Ok(ApplyRet { msg_receipt: receipt, act_error, penalty: 0, miner_tip: 0 });
        }
        let out = match compute_gas_outputs(
            receipt.gas_used,
            msg.gas_limit,
            context.base_fee,
            msg.gas_fee_cap,
            msg.gas_premium,
        ) {
            Some(out) => out,
            None => {
                state_tree.revert_all();
                return Err(MachineError::Settlement);
            },
        };
        let paid = Self::deposit(state_tree, BURNT_FUNDS_ACTOR_ID, out.base_fee_burn)
            && Self::deposit(state_tree, REWARD_ACTOR_ID, out.miner_tip) && Self::deposit(
            state_tree,
            BURNT_FUNDS_ACTOR_ID,
            out.over_estimation_burn,
        ) && Self::deposit(state_tree, sender, out.refund);
        if !paid {
            state_tree.revert_all();
            return Err(MachineError::Settlement);
        }
        let _ = state_tree.clear_snapshot();
        Ok(
            ApplyRet {
                msg_receipt: receipt,
                act_error,
                penalty: out.miner_penalty,
                miner_tip: out.miner_tip,
            },
        )
    }

    /// Whether `r` says that the message ended, and the machine is as
    /// `conclusion` has it; `base` is the state before the message.
    pub open spec fn concluded(
        &self,
        base: StateView,
        conclusion: Conclusion,
        r: Result<Step, MachineError>,
    ) -> bool {
        &&& self.in_flight() is None
        &&& self.checkpoints().len() == 0
        &&& match conclusion {
            Conclusion::Fatal => r matches Err(MachineError::Settlement) && self.state() == base,
            Conclusion::Applied(state, ret) => {
                &&& r matches Ok(Step::Done(apply_ret))
                &&& apply_ret@ == ret
                &&& self.state() == state
            },
        }
    }

    /// Whether `r` says that the message was reverted for `error`, and the
    /// machine is back at `base`, the state before the message.
    pub open spec fn aborted(
        &self,
        base: StateView,
        error: CallError,
        r: Result<Step, MachineError>,
    ) -> bool {
        &&& r matches Err(MachineError::Call(e))
        &&& e == error
        &&& self.state() == base
        &&& self.in_flight() is None
        &&& self.checkpoints().len() == 0
    }

    /// Whether `r` hands out the invocation of `code` for `kernel_msg`, and
    /// the machine is at `state` with `flight` in execution and the
    /// checkpoints `checkpoints`.
    pub open spec fn invoking(
        &self,
        flight: InFlight,
        checkpoints: Seq<StateView>,
        state: StateView,
        kernel_msg: MessageView,
        code: Cid,
        r: Result<Step, MachineError>,
    ) -> bool {
        &&& r matches Ok(Step::Invoke(container))
        &&& container.code == code
        &&& container.kernel.wf()
        &&& container.kernel.message() == kernel_msg
        &&& container.kernel.blocks()@ == seq![
            BlockView { codec: DAG_CBOR, data: kernel_msg.params },
        ]
        &&& container.kernel.spec_method_params() == FIRST_ID
        &&& container.kernel.spec_depth() + 1 == flight.frames.len()
        &&& self.state() == state
        &&& self.in_flight() == Some(flight)
        &&& self.checkpoints() == checkpoints
    }

    /// Whether `r` hands the running code `receipt`, and the machine is at
    /// `state` with `flight` in execution and the checkpoints `checkpoints`.
    pub open spec fn returning(
        &self,
        flight: InFlight,
        checkpoints: Seq<StateView>,
        state: StateView,
        receipt: ReceiptView,
        r: Result<Step, MachineError>,
    ) -> bool {
        &&& r matches Ok(Step::Return(returned))
        &&& returned@ == receipt
        &&& self.state() == state
        &&& self.in_flight() == Some(flight)
        &&& self.checkpoints() == checkpoints
    }

    /// Applies a message of `raw_length` serialized bytes.
    ///
    /// The message goes through the checks of [`preflight`]. One that fails
    /// them is returned at once, and the state stays as it was. For one that
    /// passes, the gas is reserved inside a new snapshot scope and the
    /// message is dispatched: see [`call_outcome`]. A message that needs no
    /// actor code ends here, as [`conclude`] has it. For any other one the
    /// machine hands out the invocation to run and waits for
    /// [`Machine::finish_invocation`]. A call that cannot be carried out
    /// reverts the message.
    pub fn execute_message(&mut self, msg: &Message, raw_length: usize, kind: ApplyKind) -> (r:
        Result<Step, MachineError>)
        requires
            old(self).wf(),
        ensures
            final(self).wf(),
            final(self).store() == old(self).store(),
            final(self).spec_context() == old(self).spec_context(),
            final(self).spec_config() == old(self).spec_config(),
            final(self).spec_externs() == old(self).spec_externs(),
            old(self).in_flight() is Some ==> {
                &&& r matches Err(MachineError::Busy)
                &&& final(self).state() == old(self).state()
                &&& final(self).encoding() == old(self).encoding()
                &&& final(self).in_flight() == old(self).in_flight()
                &&& final(self).checkpoints() == old(self).checkpoints()
            },
            // A message that costs more to include than its gas limit uses no
            // gas and leaves the state and its root as they were.
            old(self).in_flight() is None && old(self).spec_context().price_list.message_gas(
                raw_length as int,
            ) > msg.gas_limit ==> {
                &&& final(self).state() == old(self).state()
                &&& final(self).encoding() == old(self).encoding()
                &&& final(self).in_flight() is None
                &&& r matches Ok(step) ==> {
                    &&& step matches Step::Done(ret)
                    &&& ret@.msg_receipt.gas_used == 0
                    &&& ret@.msg_receipt.exit_code == ExitCode::SysErrOutOfGas
                }
            },
            // A priced message whose sender is unknown, or is no account where
            // that is checked, fails as sender-invalid with the penalty
            // `base_fee * gas_limit`, and the state and its root stay.
            old(self).in_flight() is None && priced(
                old(self).spec_context(),
                msg@,
                raw_length,
            ) && (old(self).state().actor(msg.from) matches Some(sender) ==> checked(
                old(self).implicit_bypass(),
                kind,
            ) && !spec_is_account_actor(sender.code)) ==> {
                &&& final(self).state() == old(self).state()
                &&& final(self).encoding() == old(self).encoding()
                &&& final(self).in_flight() is None
                &&& r matches Ok(Step::Done(ret))
                &&& ret@.msg_receipt.exit_code == ExitCode::SysErrSenderInvalid
                &&& ret@.msg_receipt.gas_used == 0
                &&& ret@.penalty == old(self).spec_context().base_fee * msg.gas_limit
            },
            // A priced and checked message from an account whose sequence is
            // not that of the message fails as sender-state-invalid, and the
            // state, with the sequence of the sender, and its root stay.
            old(self).in_flight() is None && priced(
                old(self).spec_context(),
                msg@,
                raw_length,
            ) && checked(old(self).implicit_bypass(), kind) && (old(self).state().actor(
                msg.from,
            ) matches Some(sender) && spec_is_account_actor(sender.code) && sender.sequence
                != msg.sequence) ==> {
                &&& final(self).state() == old(self).state()
                &&& final(self).encoding() == old(self).encoding()
                &&& final(self).in_flight() is None
                &&& r matches Ok(Step::Done(ret))
                &&& ret@.msg_receipt.exit_code == ExitCode::SysErrSenderStateInvalid
                &&& ret@.msg_receipt.gas_used == 0
                &&& ret@.penalty == old(self).spec_context().base_fee * msg.gas_limit
            },
            old(self).in_flight() is None ==> match preflight(
                old(self).state(),
                old(self).spec_context(),
                old(self).implicit_bypass(),
                msg@,
                raw_length,
                kind,
            ) {
                Preflight::Invalid => {
                    &&& r matches Err(MachineError::InvalidMessage(MessageError::NoGasLimit))
                    &&& final(self).state() == old(self).state()
                    &&& final(self).encoding() == old(self).encoding()
                    &&& final(self).in_flight() is None
                    &&& final(self).checkpoints().len() == 0
                },
                Preflight::Overflow => {
                    &&& r matches Err(MachineError::Overflow)
                    &&& final(self).state() == old(self).state()
                    &&& final(self).encoding() == old(self).encoding()
                    &&& final(self).in_flight() is None
                    &&& final(self).checkpoints().len() == 0
                },
                Preflight::Rejected(exit_code, penalty, text) => {
                    &&& r matches Ok(Step::Done(ret))
                    &&& ret@ == ApplyRet::failed(
                        exit_code,
                        penalty,
                        Some(ActorErrorView { fatal: false, exit_code, msg: text }),
                    )
                    &&& final(self).state() == old(self).state()
                    &&& final(self).encoding() == old(self).encoding()
                    &&& final(self).in_flight() is None
                    &&& final(self).checkpoints().len() == 0
                },
                Preflight::Reserved { state: reserved, sender, inclusion, bypass } => match call_outcome(
                    reserved,
                    inclusion,
                    msg.gas_limit,
                    0,
                    old(self).spec_context(),
                    msg@,
                ) {
                    CallOutcome::Fails { error, .. } => final(self).aborted(
                        old(self).state(),
                        error,
                        r,
                    ),
                    CallOutcome::Rejects { exit_code, gas_used } => final(self).concluded(
                        old(self).state(),
                        conclude(
                            reserved,
                            old(self).spec_context(),
                            msg@,
                            sender,
                            bypass,
                            bare_receipt(exit_code, gas_used),
                        ),
                        r,
                    ),
                    CallOutcome::Sends { state, gas_used } => final(self).concluded(
                        old(self).state(),
                        conclude(
                            state,
                            old(self).spec_context(),
                            msg@,
                            sender,
                            bypass,
                            bare_receipt(ExitCode::OK, gas_used),
                        ),
                        r,
                    ),
                    CallOutcome::Starts { state, kernel_msg, code, pending, scopes, gas_used } => final(self).invoking(
                        InFlight {
                            msg: msg@,
                            sender,
                            bypass,
                            frames: seq![pending],
                            exhausted: seq![false],
                            gas_used: gas_used as u64,
                        },
                        seq![old(self).state()] + scopes,
                        state,
                        kernel_msg,
                        code,
                        r,
                    ),
                },
            },
    {
        if self.running.is_some() {
            return Err(MachineError::Busy);
        }
        if let Err(e) = msg.check() {
            return Err(MachineError::InvalidMessage(e));
        }
        let ghost base = self.state_tree.state();
        let base_fee = self.context.base_fee;
        let inclusion = match self.context.price_list.on_chain_message(raw_length) {
            Some(charge) => charge.total(),
            None => None,
        };
        let cost_total = match inclusion {
            Some(cost_total) => cost_total,
            None => {
                return Err(MachineError::Overflow);
            },
        };
        // Verify the cost of the message is not over the message gas limit.
        if cost_total > msg.gas_limit {
            return match base_fee.checked_mul(cost_total as u128) {
                Some(penalty) => Ok(
                    Step::Done(
                        ApplyRet::prevalidation_fail(
                            ExitCode::SysErrOutOfGas,
                            penalty,
                            Some(ActorError::new(ExitCode::SysErrOutOfGas, "Out of gas".to_owned())),
                        ),
                    ),
                ),
                None => Err(MachineError::Overflow),
            };
        }
        // Load sender actor state.
        let miner_penalty_amount = match base_fee.checked_mul(msg.gas_limit as u128) {
            Some(amount) => amount,
            None => {
                return Err(MachineError::Overflow);
            },
        };
        let found = match self.state_tree.lookup_id(&msg.from) {
            Some(Address::Id(id)) => match self.state_tree.get_actor(&msg.from) {
                Some(actor) => Some((id, actor)),
                None => None,
            },
            _ => None,
        };
        let (sender_id, sender) = match found {
            Some(found) => found,
            None => {
                return Ok(
                    Step::Done(
                        ApplyRet::prevalidation_fail(
                            ExitCode::SysErrSenderInvalid,
                            miner_penalty_amount,
                            Some(
                                ActorError::new(
                                    ExitCode::SysErrSenderInvalid,
                                    "Sender invalid".to_owned(),
                                ),
                            ),
                        ),
                    ),
                );
            },
        };
        let bypass = kind == ApplyKind::Implicit && self.config.implicit_bypass;
        let mut gas_cost: u128 = 0;
        if !bypass {
            // If sender is not an account actor, the message is invalid.
            if !is_account_actor(&sender.code) {
                return Ok(
                    Step::Done(
                        ApplyRet::prevalidation_fail(
                            ExitCode::SysErrSenderInvalid,
                            miner_penalty_amount,
                            Some(
                                ActorError::new(
                                    ExitCode::SysErrSenderInvalid,
                                    "send not from account actor".to_owned(),
                                ),
                            ),
                        ),
                    ),
                );
            }
            // Check sequence is correct
            if msg.sequence != sender.sequence {
                return Ok(
                    Step::Done(
                        ApplyRet::prevalidation_fail(
                            ExitCode::SysErrSenderStateInvalid,
                            miner_penalty_amount,
                            Some(
                                ActorError::new(
                                    ExitCode::SysErrSenderStateInvalid,
                                    "actor sequence invalid".to_owned(),
                                ),
                            ),
                        ),
                    ),
                );
            }
            // Ensure from actor has enough balance to cover the gas cost of the message.
            let covered = match msg.gas_fee_cap.checked_mul(msg.gas_limit as u128) {
                Some(cost) => if sender.balance >= cost {
                    Some(cost)
                } else {
                    None
                },
                None => None,
            };
            gas_cost = match covered {
                Some(cost) => cost,
                None => {
                    return Ok(
                        Step::Done(
                            ApplyRet::prevalidation_fail(
                                ExitCode::SysErrSenderStateInvalid,
                                miner_penalty_amount,
                                Some(
                                    ActorError::new(
                                        ExitCode::SysErrSenderStateInvalid,
                                        "actor balance less than needed".to_owned(),
                                    ),
                                ),
                            ),
                        ),
                    );
                },
            };
        }
        if sender.sequence == u64::MAX {
            return Err(MachineError::Overflow);
        }
        let gas_tracker = match GasTracker::new(msg.gas_limit, cost_total) {
            Ok(gas_tracker) => gas_tracker,
            Err(_) => {
                return Err(MachineError::Overflow);
            },
        };
        // Deduct gas cost and increment sequence
        self.state_tree.snapshot();
        self.state_tree.set_actor(
            sender_id,
            ActorState {
                balance: sender.balance - gas_cost,
                sequence: sender.sequence + 1,
                ..sender
            },
        );
        let ghost reserved = self.state_tree.state();
        assert(self.state_tree.snapshots() =~= seq![base]);
        match CallStack::perform(msg, &self.context, &mut self.state_tree, gas_tracker) {
            Err(e) => {
                self.state_tree.revert_all();
                Err(MachineError::Call(e))
            },
            Ok((call_stack, Dispatch::Invoke(container))) => {
                proof {
                    let pending = call_stack.frames()[0];
                    CallStack::lemma_scopes_push(Seq::empty(), pending);
                    assert(call_stack.frames() =~= seq![pending]);
                    assert(call_stack.exhausted() =~= seq![false]);
                }
                self.running =
                Some(Running { msg: msg.clone(), sender: sender_id, bypass, call_stack });
                Ok(Step::Invoke(container))
            },
            Ok((call_stack, Dispatch::Return(receipt))) => {
                match Self::finish(
                    &mut self.state_tree,
                    &self.context,
                    msg,
                    sender_id,
                    bypass,
                    receipt,
                ) {
                    Ok(ret) => Ok(Step::Done(ret)),
                    Err(e) => Err(e),
                }
            },
        }
    }

    /// Whether a call of the message in execution ended with `receipt` at
    /// `state`: a call of the running code hands it the receipt, and the end
    /// of the outermost call ends the message, as [`conclude`] has it.
    pub open spec fn ended(
        &self,
        flight: InFlight,
        checkpoints: Seq<StateView>,
        state: StateView,
        receipt: ReceiptView,
        r: Result<Step, MachineError>,
    ) -> bool {
        if flight.frames.len() == 0 {
            self.concluded(
                checkpoints[0],
                conclude(
                    state,
                    self.spec_context(),
                    flight.msg,
                    flight.sender,
                    flight.bypass,
                    receipt,
                ),
                r,
            )
        } else {
            self.returning(flight, checkpoints, state, receipt, r)
        }
    }

    /// Dispatches a message that the running code sends.
    ///
    /// See [`call_outcome`] for what the call comes to. A call that ends at
    /// once hands its receipt to the running code; one that needs actor code
    /// hands out the invocation to run. A call that cannot be carried out
    /// reverts the whole message in execution.
    pub fn send(&mut self, msg: &Message) -> (r: Result<Step, MachineError>)
        requires
            old(self).wf(),
        ensures
            final(self).wf(),
            final(self).store() == old(self).store(),
            final(self).spec_context() == old(self).spec_context(),
            final(self).spec_config() == old(self).spec_config(),
            final(self).spec_externs() == old(self).spec_externs(),
            match old(self).in_flight() {
                None => {
                    &&& r matches Err(MachineError::Idle)
                    &&& final(self).state() == old(self).state()
                    &&& final(self).encoding() == old(self).encoding()
                    &&& final(self).in_flight() is None
                    &&& final(self).checkpoints() == old(self).checkpoints()
                },
                Some(flight) => match call_outcome(
                    old(self).state(),
                    flight.gas_used,
                    flight.msg.gas_limit,
                    flight.frames.len(),
                    old(self).spec_context(),
                    msg@,
                ) {
                    CallOutcome::Fails { error, .. } => final(self).aborted(
                        old(self).checkpoints()[0],
                        error,
                        r,
                    ),
                    CallOutcome::Rejects { exit_code, gas_used } => final(self).returning(
                        InFlight { gas_used: gas_used as u64, ..flight },
                        old(self).checkpoints(),
                        old(self).state(),
                        bare_receipt(exit_code, gas_used),
                        r,
                    ),
                    CallOutcome::Sends { state, gas_used } => final(self).returning(
                        InFlight { gas_used: gas_used as u64, ..flight },
                        old(self).checkpoints(),
                        state,
                        bare_receipt(ExitCode::OK, gas_used),
                        r,
                    ),
                    CallOutcome::Starts { state, kernel_msg, code, pending, scopes, gas_used } => final(self).invoking(
                        InFlight {
                            frames: flight.frames.push(pending),
                            exhausted: flight.exhausted.push(false),
                            gas_used: gas_used as u64,
                            ..flight
                        },
                        old(self).checkpoints() + scopes,
                        state,
                        kernel_msg,
                        code,
                        r,
                    ),
                },
            },
    {
        let mut run = match self.running.take() {
            Some(run) => run,
            None => {
                return Err(MachineError::Idle);
            },
        };
        let ghost frames = run.call_stack.frames();
        match run.call_stack.call_next(&mut self.state_tree, &self.context, msg) {
            Err(e) => {
                self.state_tree.revert_all();
                Err(MachineError::Call(e))
            },
            Ok(Dispatch::Invoke(container)) => {
                proof {
                    let pending = run.call_stack.frames().last();
                    CallStack::lemma_scopes_push(frames, pending);
                }
                self.running = Some(run);
                Ok(Step::Invoke(container))
            },
            Ok(Dispatch::Return(receipt)) => {
                self.running = Some(run);
                Ok(Step::Return(receipt))
            },
        }
    }

    /// Reports that the invocation that was handed out last ended with
    /// `exit_code` and `return_data`, and gives up its kernel: a kernel
    /// serves one invocation only. The report of any other kernel reverts the
    /// message in execution.
    ///
    /// An invocation that ran out of gas ends as out of gas, whatever is
    /// reported of it. The scope of the invocation is kept when it succeeded
    /// and reverted when it failed. A call of the running code hands it the
    /// receipt; the end of the outermost call ends the message, as
    /// [`conclude`] has it. When the invocation was the constructor of a new
    /// account and ran out of gas, the message that waited for it ends as out
    /// of gas; any other failure of the constructor reverts the message in
    /// execution, and after its success the waiting message is entered: see
    /// [`enter_outcome`].
    pub fn finish_invocation(
        &mut self,
        kernel: DefaultKernel,
        exit_code: ExitCode,
        return_data: Vec<u8>,
    ) -> (r: Result<Step, MachineError>)
        requires
            old(self).wf(),
        ensures
            final(self).wf(),
            final(self).store() == old(self).store(),
            final(self).spec_context() == old(self).spec_context(),
            final(self).spec_config() == old(self).spec_config(),
            final(self).spec_externs() == old(self).spec_externs(),
            match old(self).in_flight() {
                None => {
                    &&& r matches Err(MachineError::Idle)
                    &&& final(self).state() == old(self).state()
                    &&& final(self).encoding() == old(self).encoding()
                    &&& final(self).in_flight() is None
                    &&& final(self).checkpoints() == old(self).checkpoints()
                },
                Some(flight) => if kernel.spec_depth() + 1 != flight.frames.len() {
                    final(self).aborted(old(self).checkpoints()[0], CallError::WrongInvocation, r)
                } else {
                    let rest = InFlight {
                        frames: flight.frames.drop_last(),
                        exhausted: flight.exhausted.drop_last(),
                        ..flight
                    };
                    let checkpoints = old(self).checkpoints();
                    let outer = checkpoints.len() - 2;
                    let ended = CallStack::ended_with(flight.exhausted.last(), exit_code);
                    match flight.frames.last() {
                        None => final(self).ended(
                            rest,
                            checkpoints.drop_last(),
                            if ended == ExitCode::OK {
                                old(self).state()
                            } else {
                                checkpoints.last()
                            },
                            CallStack::receipt_of(ended, return_data@, flight.gas_used),
                            r,
                        ),
                        Some(waiting) => if flight.exhausted.last() {
                            final(self).ended(
                                rest,
                                checkpoints.subrange(0, outer),
                                checkpoints[outer],
                                bare_receipt(ExitCode::SysErrOutOfGas, flight.gas_used as int),
                                r,
                            )
                        } else if exit_code != ExitCode::OK {
                            final(self).aborted(checkpoints[0], CallError::ConstructorFailed, r)
                        } else {
                            match enter_outcome(old(self).state(), waiting, waiting.to->Id_0) {
                                EnterOutcome::Fails(error) => final(self).aborted(
                                    checkpoints[0],
                                    error,
                                    r,
                                ),
                                EnterOutcome::Rejects(code) => final(self).ended(
                                    rest,
                                    checkpoints.subrange(0, outer),
                                    checkpoints[outer],
                                    bare_receipt(code, flight.gas_used as int),
                                    r,
                                ),
                                EnterOutcome::Sends(after) => final(self).ended(
                                    rest,
                                    checkpoints.subrange(0, outer),
                                    after,
                                    bare_receipt(ExitCode::OK, flight.gas_used as int),
                                    r,
                                ),
                                EnterOutcome::Starts(after, kernel_msg, code) => final(self).invoking(
                                    InFlight {
                                        frames: rest.frames.push(None),
                                        exhausted: rest.exhausted.push(false),
                                        ..flight
                                    },
                                    checkpoints.drop_last(),
                                    after,
                                    kernel_msg,
                                    code,
                                    r,
                                ),
                            }
                        },
                    }
                },
            },
    {
        let mut run = match self.running.take() {
            Some(run) => run,
            None => {
                return Err(MachineError::Idle);
            },
        };
        let ghost frames = run.call_stack.frames();
        let ghost checkpoints = self.state_tree.snapshots();
        proof {
            assert(frames =~= frames.drop_last().push(frames.last()));
            CallStack::lemma_scopes_push(frames.drop_last(), frames.last());
        }
        match run.call_stack.complete(&mut self.state_tree, kernel, exit_code, return_data) {
            Err(e) => {
                self.state_tree.revert_all();
                Err(MachineError::Call(e))
            },
            Ok(Dispatch::Invoke(container)) => {
                proof {
                    CallStack::lemma_scopes_push(frames.drop_last(), None);
                }
                self.running = Some(run);
                Ok(Step::Invoke(container))
            },
            Ok(Dispatch::Return(receipt)) => {
                if run.call_stack.depth() > 0 {
                    self.running = Some(run);
                    return Ok(Step::Return(receipt));
                }
                proof {
                    assert(run.call_stack.frames() =~= Seq::empty());
                    assert(CallStack::scopes(frames.drop_last()) == 0);
                }
                match Self::finish(
                    &mut self.state_tree,
                    &self.context,
                    &run.msg,
                    run.sender,
                    run.bypass,
                    receipt,
                ) {
                    Ok(ret) => Ok(Step::Done(ret)),
                    Err(e) => Err(e),
                }
            },
        }
    }

    /// Charges gas to the message in execution on behalf of the running
    /// code. A charge beyond the gas that is left charges nothing and marks
    /// the innermost invocation as out of gas: it ends as out of gas,
    /// whatever is reported of it.
    pub fn charge_gas(&mut self, amount: u64) -> (r: Result<(), OutOfGas>)
        requires
            old(self).wf(),
        ensures
            final(self).wf(),
            final(self).store() == old(self).store(),
            final(self).spec_context() == old(self).spec_context(),
            final(self).spec_config() == old(self).spec_config(),
            final(self).spec_externs() == old(self).spec_externs(),
            final(self).state() == old(self).state(),
            final(self).encoding() == old(self).encoding(),
            final(self).checkpoints() == old(self).checkpoints(),
            match old(self).in_flight() {
                None => r is Err && final(self).in_flight() is None,
                Some(flight) => {
                    &&& r is Ok <==> flight.gas_used + amount <= flight.msg.gas_limit
                    &&& final(self).in_flight() == Some(
                        if r is Ok {
                            InFlight { gas_used: (flight.gas_used + amount) as u64, ..flight }
                        } else {
                            InFlight { exhausted: mark_last(flight.exhausted), ..flight }
                        },
                    )
                },
            },
    {
        let mut run = match self.running.take() {
            Some(run) => run,
            None => {
                return Err(OutOfGas);
            },
        };
        let r = run.call_stack.charge_gas(amount);
        self.running = Some(run);
        r
    }

    /// The gas that is left to the message in execution; none when no
    /// message is in execution.
    pub open spec fn spec_gas_available(&self) -> u64 {
        match self.in_flight() {
            Some(flight) => (flight.msg.gas_limit - flight.gas_used) as u64,
            None => 0,
        }
    }

    #[verifier::when_used_as_spec(spec_gas_available)]
    pub fn gas_available(&self) -> (r: u64)
        requires
            self.wf(),
        ensures
            r == self.spec_gas_available(),
    {
        match &self.running {
            Some(run) => run.call_stack.gas_tracker().gas_available(),
            None => 0,
        }
    }

    /// The message by which the actor that `kernel` runs calls `to`: sent by
    /// that actor, with all the gas that is left to the message in
    /// execution, and outside of the sequence and the fees of top-level
    /// messages.
    pub fn outgoing_message(
        &self,
        kernel: &DefaultKernel,
        to: Address,
        method_num: MethodNum,
        params: Vec<u8>,
        value: u128,
    ) -> (r: Message)
        requires
            self.wf(),
        ensures
            r@ == (MessageView {
                version: 0,
                from: Address::Id(kernel.spec_receiver()),
                to,
                sequence: 0,
                value,
                method_num,
                params: params@,
                gas_limit: self.spec_gas_available(),
                gas_fee_cap: 0,
                gas_premium: 0,
            }),
    {
        Message {
            version: 0,
            from: Address::Id(kernel.receiver()),
            to,
            sequence: 0,
            value,
            method_num,
            params,
            gas_limit: self.gas_available(),
            gas_fee_cap: 0,
            gas_premium: 0,
        }
    }

    /// Whether `kernel` is the kernel of the innermost invocation of the
    /// message in execution.
    pub open spec fn runs(&self, kernel: &DefaultKernel) -> bool {
        self.in_flight() matches Some(flight) && kernel.spec_depth() + 1 == flight.frames.len()
    }

    /// Replaces the root of the private state of the actor that `kernel`
    /// runs. Only the kernel of the innermost invocation may do so: the state
    /// changes inside the snapshot scope of that invocation, never outside of
    /// one.
    pub fn set_root(&mut self, kernel: &mut DefaultKernel, new: Cid) -> (r: Result<
        (),
        KernelError,
    >)
        requires
            old(self).wf(),
            old(kernel).wf(),
        ensures
            final(self).wf(),
            final(kernel).wf(),
            final(kernel).message() == old(kernel).message(),
            final(kernel).blocks() == old(kernel).blocks(),
            final(kernel).spec_caller() == old(kernel).spec_caller(),
            final(kernel).spec_receiver() == old(kernel).spec_receiver(),
            final(kernel).spec_depth() == old(kernel).spec_depth(),
            final(kernel).spec_method_params() == old(kernel).spec_method_params(),
            final(self).store() == old(self).store(),
            final(self).spec_context() == old(self).spec_context(),
            final(self).spec_config() == old(self).spec_config(),
            final(self).spec_externs() == old(self).spec_externs(),
            final(self).in_flight() == old(self).in_flight(),
            final(self).checkpoints() == old(self).checkpoints(),
            !old(self).runs(old(kernel)) ==> {
                &&& r == Err::<(), KernelError>(KernelError::NotRunning)
                &&& final(self).state() == old(self).state()
                &&& final(self).encoding() == old(self).encoding()
            },
            old(self).runs(old(kernel)) ==> match old(self).state().actor(
                Address::Id(old(kernel).spec_receiver()),
            ) {
                Some(actor) => {
                    &&& r is Ok
                    &&& final(self).state() == old(self).state().with_actor(
                        old(kernel).spec_receiver(),
                        ActorState { state: new, ..actor },
                    )
                },
                None => {
                    &&& r == Err::<(), KernelError>(KernelError::ActorNotFound)
                    &&& final(self).state() == old(self).state()
                },
            },
    {
        let depth = match &self.running {
            Some(run) => run.call_stack.depth(),
            None => 0,
        };
        if depth == 0 || depth - 1 != kernel.depth() {
            return Err(KernelError::NotRunning);
        }
        kernel.set_root(&mut self.state_tree, new)
    }

    /// Makes a block of `kernel` durable in the block store of the machine:
    /// see [`DefaultKernel::block_link`].
    pub fn block_link(
        &mut self,
        kernel: &mut DefaultKernel,
        id: BlockId,
        hash_fun: u64,
        hash_len: u32,
    ) -> (r: Result<Cid, BlockError>)
        requires
            old(self).wf(),
            old(kernel).wf(),
        ensures
            final(self).wf(),
            final(kernel).wf(),
            final(kernel).message() == old(kernel).message(),
            final(kernel).blocks() == old(kernel).blocks(),
            final(kernel).spec_caller() == old(kernel).spec_caller(),
            final(kernel).spec_receiver() == old(kernel).spec_receiver(),
            final(kernel).spec_depth() == old(kernel).spec_depth(),
            final(kernel).spec_method_params() == old(kernel).spec_method_params(),
            final(self).state() == old(self).state(),
            final(self).encoding() == old(self).encoding(),
            final(self).spec_context() == old(self).spec_context(),
            final(self).spec_config() == old(self).spec_config(),
            final(self).spec_externs() == old(self).spec_externs(),
            final(self).in_flight() == old(self).in_flight(),
            final(self).checkpoints() == old(self).checkpoints(),
            match r {
                Ok(k) => {
                    &&& old(kernel).blocks().has(id)
                    &&& hash_supported(hash_fun)
                    &&& hash_len <= hash_digest_len(hash_fun)
                    &&& linked_cid(k, old(kernel).blocks().block(id), hash_fun, hash_len)
                    &&& final(self).store() == old(self).store().insert(
                        k,
                        old(kernel).blocks().block(id).data,
                    )
                },
                Err(BlockError::InvalidHandle(h)) => {
                    &&& h == id
                    &&& !old(kernel).blocks().has(id)
                    &&& final(self).store() == old(self).store()
                },
                Err(BlockError::InvalidMultihashSpec { length, code }) => {
                    &&& length == hash_len
                    &&& code == hash_fun
                    &&& old(kernel).blocks().has(id)
                    &&& (!hash_supported(hash_fun) || hash_len > hash_digest_len(hash_fun))
                    &&& final(self).store() == old(self).store()
                },
                Err(BlockError::Internal(_)) => {
                    &&& old(kernel).blocks().has(id)
                    &&& hash_supported(hash_fun)
                    &&& hash_len <= hash_digest_len(hash_fun)
                    &&& final(self).store() == old(self).store()
                },
                Err(_) => false,
            },
    {
        kernel.block_link(&mut self.blockstore, id, hash_fun, hash_len)
    }
}

} // verus!
