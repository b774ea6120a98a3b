//! Gas metering: the tracker that gates every priced operation, the price
//! list, and the settlement of the fee that a message reserved.

use crate::message::ChainEpoch;
use vstd::prelude::*;

verus! {

/// The gas budget of the message is exhausted.
#[derive(Clone, Copy, Debug, PartialEq, Eq, Structural)]
pub struct OutOfGas;

/// Tracks how much of a prepaid gas budget has been used.
#[derive(Debug, PartialEq, Eq)]
pub struct GasTracker {
    gas_limit: u64,
    gas_used: u64,
}

impl GasTracker {
    /// No more gas is ever used than the budget holds.
    #[verifier::type_invariant]
    pub open spec fn inv(&self) -> bool {
        self.used() <= self.limit()
    }

    pub closed spec fn limit(&self) -> u64 {
        self.gas_limit
    }

    pub closed spec fn used(&self) -> u64 {
        self.gas_used
    }

    /// A tracker for a budget of `gas_limit` of which `gas_used` is already
    /// spent; fails when that is more than the budget.
    pub fn new(gas_limit: u64, gas_used: u64) -> (r: Result<GasTracker, OutOfGas>)
        ensures
            r is Ok <==> gas_used <= gas_limit,
            r matches Ok(t) ==> t.limit() == gas_limit && t.used() == gas_used && t.inv(),
    {
        if gas_used > gas_limit {
            Err(OutOfGas)
        } else {
            Ok(GasTracker { gas_limit, gas_used })
        }
    }

    /// Charges `amount`, or fails and charges nothing when the budget does not
    /// cover it.
    pub fn charge_gas(&mut self, amount: u64) -> (r: Result<(), OutOfGas>)
        ensures
            final(self).limit() == old(self).limit(),
            final(self).inv(),
            r is Ok <==> old(self).used() + amount <= old(self).limit(),
            r is Ok ==> final(self).used() == old(self).used() + amount,
            r is Err ==> final(self).used() == old(self).used(),
    {
        proof {
            use_type_invariant(&*self);
        }
        if amount > self.gas_limit - self.gas_used {
            Err(OutOfGas)
        } else {
            self.gas_used = self.gas_used + amount;
            Ok(())
        }
    }

    /// The gas that is left.
    pub fn gas_available(&self) -> (r: u64)
        ensures
            r == self.limit() - self.used(),
            self.inv(),
    {
        proof {
            use_type_invariant(self);
        }
        self.gas_limit - self.gas_used
    }

    pub fn gas_used(&self) -> (r: u64)
        ensures
            r == self.used(),
            r <= self.limit(),
            self.inv(),
    {
        proof {
            use_type_invariant(self);
        }
        self.gas_used
    }

    pub fn gas_limit(&self) -> (r: u64)
        ensures
            r == self.limit(),
    {
        self.gas_limit
    }
}

/// The price of one operation, split in what pays for computation and what
/// pays for storage.
#[derive(Clone, Copy, Debug, PartialEq, Eq, Structural)]
pub struct GasCharge {
    pub compute_gas: u64,
    pub storage_gas: u64,
}

impl GasCharge {
    pub open spec fn spec_total(&self) -> int {
        self.compute_gas + self.storage_gas
    }

    /// The whole price, unless it does not fit in 64 bits.
    pub fn total(&self) -> (r: Option<u64>)
        ensures
            r is Some <==> self.spec_total() <= u64::MAX,
            r matches Some(t) ==> t == self.spec_total(),
    {
        self.compute_gas.checked_add(self.storage_gas)
    }
}

/// The prices of the operations that the machine charges for.
#[derive(Clone, Copy, Debug, PartialEq, Eq, Structural)]
pub struct PriceList {
    /// Factor applied to every storage price.
    pub storage_gas_multi: u64,
    /// Computation price of including a message on chain.
    pub on_chain_message_compute_base: u64,
    /// Storage price of including a message on chain, whatever its size.
    pub on_chain_message_storage_base: u64,
    /// Storage price of each byte of a message included on chain.
    pub on_chain_message_storage_per_byte: u64,
    /// Computation price of creating an actor.
    pub create_actor_compute: u64,
    /// Storage price of creating an actor.
    pub create_actor_storage: u64,
}

impl PriceList {
    /// Storage gas of a message of `msg_size` serialized bytes.
    pub open spec fn message_storage_gas(&self, msg_size: int) -> int {
        (self.on_chain_message_storage_base + self.on_chain_message_storage_per_byte * msg_size)
            * self.storage_gas_multi
    }

    /// Gas for including a message of `msg_size` serialized bytes on chain.
    pub open spec fn message_gas(&self, msg_size: int) -> int {
        self.on_chain_message_compute_base + self.message_storage_gas(msg_size)
    }

    /// Gas for creating an actor.
    pub open spec fn create_actor_gas(&self) -> int {
        self.create_actor_compute + self.create_actor_storage * self.storage_gas_multi
    }

    /// The price of including a message of `msg_size` serialized bytes on
    /// chain; `None` when its storage part does not fit in 64 bits.
    pub fn on_chain_message(&self, msg_size: usize) -> (r: Option<GasCharge>)
        ensures
            r is Some <==> self.message_storage_gas(msg_size as int) <= u64::MAX,
            r matches Some(c) ==> c.compute_gas == self.on_chain_message_compute_base
                && c.storage_gas == self.message_storage_gas(msg_size as int)
                && c.spec_total() == self.message_gas(msg_size as int),
    {
        let base: u128 = self.on_chain_message_storage_base as u128;
        let per_byte: u128 = self.on_chain_message_storage_per_byte as u128;
        let size: u128 = msg_size as u128;
        let multi: u128 = self.storage_gas_multi as u128;
        assert(per_byte * size <= 0xffff_ffff_ffff_ffff * 0xffff_ffff_ffff_ffff) by (nonlinear_arith)
            requires
                0 <= per_byte <= 0xffff_ffff_ffff_ffff,
                0 <= size <= 0xffff_ffff_ffff_ffff,
        ;
        let bytes: u128 = base + per_byte * size;
        match bytes.checked_mul(multi) {
            Some(storage) => {
                if storage > u64::MAX as u128 {
                    None
                } else {
                    Some(
                        GasCharge {
                            compute_gas: self.on_chain_message_compute_base,
                            storage_gas: storage as u64,
                        },
                    )
                }
            },
            None => None,
        }
    }

    /// The price of creating an actor; `None` when its storage part does not
    /// fit in 64 bits.
    pub fn on_create_actor(&self) -> (r: Option<GasCharge>)
        ensures
            r is Some <==> self.create_actor_storage * self.storage_gas_multi <= u64::MAX,
            r matches Some(c) ==> c.compute_gas == self.create_actor_compute && c.storage_gas
                == self.create_actor_storage * self.storage_gas_multi && c.spec_total()
                == self.create_actor_gas(),
    {
        match self.create_actor_storage.checked_mul(self.storage_gas_multi) {
            Some(storage) => Some(
                GasCharge { compute_gas: self.create_actor_compute, storage_gas: storage },
            ),
            None => None,
        }
    }
}

/// A price list together with the epoch from which it holds.
#[derive(Clone, Copy, Debug, PartialEq, Eq, Structural)]
pub struct PricePeriod {
    pub start: ChainEpoch,
    pub prices: PriceList,
}

/// Index of the last period of `schedule` that has started by `epoch`.
pub open spec fn price_period_at(schedule: Seq<PricePeriod>, epoch: ChainEpoch) -> Option<int>
    decreases schedule.len(),
{
    if schedule.len() == 0 {
        None
    } else if schedule.last().start <= epoch {
        Some(schedule.len() - 1)
    } else {
        price_period_at(schedule.drop_last(), epoch)
    }
}

/// The prices in effect at `epoch`: those of the last period of the schedule
/// that has started by then, if there is one.
pub fn price_list_by_epoch(schedule: &[PricePeriod], epoch: ChainEpoch) -> (r: Option<PriceList>)
    ensures
        r is Some <==> price_period_at(schedule@, epoch) is Some,
        r matches Some(p) ==> p == schedule@[price_period_at(schedule@, epoch)->0].prices,
        r matches Some(p) ==> 0 <= price_period_at(schedule@, epoch)->0 < schedule@.len(),
{
    let mut found: Option<PriceList> = None;
    let mut i: usize = 0;
    assert(schedule@.subrange(0, 0) =~= Seq::<PricePeriod>::empty());
    while i < schedule.len()
        invariant
            i <= schedule@.len(),
            found is Some <==> price_period_at(schedule@.subrange(0, i as int), epoch) is Some,
            found matches Some(p) ==> {
                let k = price_period_at(schedule@.subrange(0, i as int), epoch)->0;
                0 <= k < i && p == schedule@[k].prices
            },
        decreases schedule@.len() - i,
    {
        let ghost prefix = schedule@.subrange(0, i as int);
        let ghost next = schedule@.subrange(0, i + 1);
        assert(next.drop_last() =~= prefix);
        assert(next.last() == schedule@[i as int]);
        if schedule[i].start <= epoch {
            found = Some(schedule[i].prices);
        }
        i = i + 1;
    }
    assert(schedule@.subrange(0, schedule@.len() as int) =~= schedule@);
    found
}

/// How the fee that a message reserved is settled, in mathematical integers.
pub struct GasOutputsSpec {
    pub base_fee_burn: int,
    pub over_estimation_burn: int,
    pub miner_penalty: int,
    pub miner_tip: int,
    pub refund: int,
    pub gas_refund: int,
    pub gas_burned: int,
}

/// Numerator and denominator of the share of the used gas that a message may
/// over-estimate its limit by without being charged for it.
pub const GAS_OVERUSE_NUM: u64 = 11;

pub const GAS_OVERUSE_DENOM: u64 = 10;

/// The gas burned for over-estimating the limit. A message that used no gas
/// burns its whole limit. Otherwise the allowance is `gas_limit` less 11/10 of
/// the used gas, capped at the used gas; none burns nothing, and else the
/// unused gas is burned in the proportion of the allowance to the used gas.
pub open spec fn gas_to_burn(gas_used: int, gas_limit: int) -> int {
    if gas_used == 0 {
        gas_limit
    } else {
        let over = gas_limit - (GAS_OVERUSE_NUM * gas_used) / (GAS_OVERUSE_DENOM as int);
        if over < 0 {
            0
        } else {
            let capped = if over > gas_used {
                gas_used
            } else {
                over
            };
            ((gas_limit - gas_used) * capped) / gas_used
        }
    }
}

/// Splits the gas that a message did not use in what is refunded and what is
/// burned for over-estimation: `(refund, burn)`.
pub fn compute_gas_overestimation_burn(gas_used: u64, gas_limit: u64) -> (r: (u64, u64))
    requires
        gas_used <= gas_limit,
    ensures
        r.1 == gas_to_burn(gas_used as int, gas_limit as int),
        r.0 + r.1 == gas_limit - gas_used,
{
    if gas_used == 0 {
        return (0, gas_limit);
    }
    let used: u128 = gas_used as u128;
    let limit: u128 = gas_limit as u128;
    assert(GAS_OVERUSE_NUM as u128 * used == 11 * used && 11 * used <= 11
        * 0xffff_ffff_ffff_ffff) by (nonlinear_arith)
        requires
            GAS_OVERUSE_NUM == 11,
            0 <= used <= 0xffff_ffff_ffff_ffff,
    ;
    let allowed: u128 = (GAS_OVERUSE_NUM as u128 * used) / (GAS_OVERUSE_DENOM as u128);
    if allowed > limit {
        return (gas_limit - gas_used, 0);
    }
    let mut over: u128 = limit - allowed;
    if over > used {
        over = used;
    }
    let unused: u128 = limit - used;
    assert(unused * over <= unused * used) by (nonlinear_arith)
        requires
            0 <= over <= used,
            0 <= unused,
    ;
    assert(unused * used <= 0xffff_ffff_ffff_ffff * 0xffff_ffff_ffff_ffff) by (nonlinear_arith)
        requires
            0 <= unused <= 0xffff_ffff_ffff_ffff,
            0 <= used <= 0xffff_ffff_ffff_ffff,
    ;
    let burn: u128 = (unused * over) / used;
    assert(burn <= unused) by (nonlinear_arith)
        requires
            burn == (unused * over) / (used as int),
            unused * over <= unused * used,
            used > 0,
            0 <= unused,
            0 <= over,
    ;
    ((unused - burn) as u64, burn as u64)
}

/// How the fee reserved for a message is settled once `gas_used` is known.
///
/// The base fee paid per unit of gas is the base fee capped by the fee cap;
/// what the cap cuts off is the miner's penalty. The used gas and the gas
/// burned for over-estimation are burned at that rate. The miner is tipped the
/// premium, capped by what the fee cap leaves above the base fee paid, on the
/// whole gas limit. The rest of the reserved `fee_cap * gas_limit` is
/// refunded.
pub open spec fn gas_outputs(
    gas_used: int,
    gas_limit: int,
    base_fee: int,
    fee_cap: int,
    gas_premium: int,
) -> GasOutputsSpec {
    let base_fee_to_pay = if base_fee > fee_cap {
        fee_cap
    } else {
        base_fee
    };
    let tip = if base_fee_to_pay + gas_premium > fee_cap {
        fee_cap - base_fee_to_pay
    } else {
        gas_premium
    };
    let gas_burned = gas_to_burn(gas_used, gas_limit);
    let base_fee_burn = base_fee_to_pay * gas_used;
    let miner_tip = tip * gas_limit;
    let over_estimation_burn = base_fee_to_pay * gas_burned;
    GasOutputsSpec {
        base_fee_burn,
        over_estimation_burn,
        miner_penalty: (base_fee - base_fee_to_pay) * gas_used + (base_fee - base_fee_to_pay)
            * gas_burned,
        miner_tip,
        refund: fee_cap * gas_limit - base_fee_burn - miner_tip - over_estimation_burn,
        gas_refund: gas_limit - gas_used - gas_burned,
        gas_burned,
    }
}

/// How the fee that a message reserved is settled.
#[derive(Clone, Copy, Debug, PartialEq, Eq, Structural)]
pub struct GasOutputs {
    /// Burned for the gas that was used.
    pub base_fee_burn: u128,
    /// Burned for the gas that the limit over-estimated.
    pub over_estimation_burn: u128,
    /// Charged to the miner for including a message whose fee cap is below
    /// the base fee.
    pub miner_penalty: u128,
    /// Paid to the miner.
    pub miner_tip: u128,
    /// Returned to the sender.
    pub refund: u128,
    pub gas_refund: u64,
    pub gas_burned: u64,
}

impl GasOutputs {
    pub open spec fn matches(&self, s: GasOutputsSpec) -> bool {
        &&& self.base_fee_burn == s.base_fee_burn
        &&& self.over_estimation_burn == s.over_estimation_burn
        &&& self.miner_penalty == s.miner_penalty
        &&& self.miner_tip == s.miner_tip
        &&& self.refund == s.refund
        &&& self.gas_refund == s.gas_refund
        &&& self.gas_burned == s.gas_burned
    }
}

/// The over-estimation burn takes part of the unused gas, never more.
pub proof fn lemma_gas_to_burn_bounds(gas_used: int, gas_limit: int)
    requires
        0 <= gas_used <= gas_limit,
    ensures
        0 <= gas_to_burn(gas_used, gas_limit) <= gas_limit - gas_used,
{
    if gas_used != 0 {
        let over = gas_limit - (GAS_OVERUSE_NUM * gas_used) / (GAS_OVERUSE_DENOM as int);
        if over >= 0 {
            let capped = if over > gas_used {
                gas_used
            } else {
                over
            };
            let unused = gas_limit - gas_used;
            assert(0 <= (unused * capped) / gas_used <= unused) by (nonlinear_arith)
                requires
                    0 <= capped <= gas_used,
                    0 <= unused,
                    gas_used > 0,
            ;
        }
    }
}

/// The settlement of a fee shares out exactly what was reserved, and every
/// share is between nothing and the whole.
pub proof fn lemma_gas_conservation(
    gas_used: int,
    gas_limit: int,
    base_fee: int,
    fee_cap: int,
    gas_premium: int,
)
    requires
        0 <= gas_used <= gas_limit,
        0 <= base_fee,
        0 <= fee_cap,
        0 <= gas_premium,
    ensures
        ({
            let out = gas_outputs(gas_used, gas_limit, base_fee, fee_cap, gas_premium);
            &&& out.base_fee_burn + out.miner_tip + out.over_estimation_burn + out.refund
                == fee_cap * gas_limit
            &&& 0 <= out.base_fee_burn <= fee_cap * gas_limit
            &&& 0 <= out.miner_tip <= fee_cap * gas_limit
            &&& 0 <= out.over_estimation_burn <= fee_cap * gas_limit
            &&& 0 <= out.refund <= fee_cap * gas_limit
            &&& 0 <= out.miner_penalty <= base_fee * gas_limit
            &&& 0 <= out.gas_burned <= gas_limit - gas_used
            &&& out.gas_refund + out.gas_burned == gas_limit - gas_used
        }),
{
    lemma_gas_to_burn_bounds(gas_used, gas_limit);
    let pay = if base_fee > fee_cap {
        fee_cap
    } else {
        base_fee
    };
    let tip = if pay + gas_premium > fee_cap {
        fee_cap - pay
    } else {
        gas_premium
    };
    let burned = gas_to_burn(gas_used, gas_limit);
    let cut = base_fee - pay;
    assert(0 <= pay * gas_used && 0 <= pay * burned && 0 <= tip * gas_limit && pay * gas_used + pay
        * burned + tip * gas_limit <= fee_cap * gas_limit) by (nonlinear_arith)
        requires
            0 <= pay,
            0 <= tip,
            pay + tip <= fee_cap,
            0 <= gas_used,
            0 <= burned,
            gas_used + burned <= gas_limit,
    ;
    assert(0 <= cut * gas_used && 0 <= cut * burned && cut * gas_used + cut * burned <= base_fee
        * gas_limit) by (nonlinear_arith)
        requires
            0 <= cut <= base_fee,
            0 <= gas_used,
            0 <= burned,
            gas_used + burned <= gas_limit,
    ;
}

/// Settles the fee of a message that used `gas_used` of its `gas_limit`.
///
/// Returns `None` when `gas_used` exceeds `gas_limit`, or when the reserved
/// fee `fee_cap * gas_limit` or the largest penalty `base_fee * gas_limit`
/// does not fit in 128 bits.
pub fn compute_gas_outputs(
    gas_used: u64,
    gas_limit: u64,
    base_fee: u128,
    fee_cap: u128,
    gas_premium: u128,
) -> (r: Option<GasOutputs>)
    ensures
        r is Some <==> gas_used <= gas_limit && fee_cap * gas_limit <= u128::MAX && base_fee
            * gas_limit <= u128::MAX,
        r matches Some(out) ==> out.matches(
            gas_outputs(
                gas_used as int,
                gas_limit as int,
                base_fee as int,
                fee_cap as int,
                gas_premium as int,
            ),
        ),
        // What is burned, tipped and refunded is exactly what was reserved.
        r matches Some(out) ==> out.base_fee_burn + out.miner_tip + out.over_estimation_burn
            + out.refund == fee_cap * gas_limit,
{
    if gas_used > gas_limit {
        return None;
    }
    let required = match fee_cap.checked_mul(gas_limit as u128) {
        Some(v) => v,
        None => {
            return None;
        },
    };
    if base_fee.checked_mul(gas_limit as u128).is_none() {
        return None;
    }
    proof {
        lemma_gas_conservation(
            gas_used as int,
            gas_limit as int,
            base_fee as int,
            fee_cap as int,
            gas_premium as int,
        );
    }
    let base_fee_to_pay: u128 = if base_fee > fee_cap {
        fee_cap
    } else {
        base_fee
    };
    let tip: u128 = if gas_premium > fee_cap - base_fee_to_pay {
        fee_cap - base_fee_to_pay
    } else {
        gas_premium
    };
    let (gas_refund, gas_burned) = compute_gas_overestimation_burn(gas_used, gas_limit);
    let cut: u128 = base_fee - base_fee_to_pay;
    let base_fee_burn: u128 = base_fee_to_pay * (gas_used as u128);
    let over_estimation_burn: u128 = base_fee_to_pay * (gas_burned as u128);
    let miner_tip: u128 = tip * (gas_limit as u128);
    assert(0 <= cut * gas_used && 0 <= cut * gas_burned) by (nonlinear_arith)
        requires
            0 <= cut,
            0 <= gas_used,
            0 <= gas_burned,
    ;
    let miner_penalty: u128 = cut * (gas_used as u128) + cut * (gas_burned as u128);
    let refund: u128 = required - base_fee_burn - miner_tip - over_estimation_burn;
    Some(
        GasOutputs {
            base_fee_burn,
            over_estimation_burn,
            miner_penalty,
            miner_tip,
            refund,
            gas_refund,
            gas_burned,
        },
    )
}

} // verus!
