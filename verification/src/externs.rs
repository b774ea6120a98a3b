//! What the machine asks of the node that hosts it.

use crate::address::Address;
use crate::message::ChainEpoch;
use crate::rand::{
    replayed, DomainSeparationTag, Rand, RandError, RandomnessKind, RandomnessRuleView,
    ReplayingRand,
};
use vstd::prelude::*;

verus! {

/// The kind of a consensus fault.
#[derive(Clone, Copy, Debug, PartialEq, Eq, Structural)]
pub enum ConsensusFaultType {
    DoubleForkMining,
    ParentGrinding,
    TimeOffsetMining,
}

/// A consensus fault that was detected.
#[derive(Clone, Copy, Debug, PartialEq, Eq)]
pub struct ConsensusFault {
    /// Address of the miner at fault.
    pub target: Address,
    /// Epoch of the fault.
    pub epoch: ChainEpoch,
    pub fault_type: ConsensusFaultType,
}

/// The fault could not be checked.
#[derive(Clone, Copy, Debug, PartialEq, Eq, Structural)]
pub struct ConsensusError;

/// Checks block headers for consensus faults. Nothing is promised of what it
/// returns.
pub trait Consensus {
    fn verify_consensus_fault(&self, h1: &[u8], h2: &[u8], extra: &[u8]) -> Result<
        Option<ConsensusFault>,
        ConsensusError,
    >;
}

/// All that the machine asks of its host.
pub trait Externs: Rand + Consensus {

}

/// Forwards randomness requests to a [`ReplayingRand`] and finds no
/// consensus fault.
#[derive(Debug)]
pub struct TestExterns<'a> {
    rand: ReplayingRand<'a>,
}

impl<'a> TestExterns<'a> {
    pub closed spec fn rand(&self) -> ReplayingRand<'a> {
        self.rand
    }

    pub fn new(rand: ReplayingRand<'a>) -> (r: Self)
        ensures
            r.rand() == rand,
    {
        TestExterns { rand }
    }
}

impl Externs for TestExterns<'_> {

}

impl Rand for TestExterns<'_> {
    fn get_chain_randomness(
        &self,
        pers: DomainSeparationTag,
        round: ChainEpoch,
        entropy: &[u8],
    ) -> (r: Result<[u8; 32], RandError>)
        ensures
            r matches Ok(bytes) && bytes@ == replayed(
                self.rand().recorded@,
                RandomnessRuleView {
                    kind: RandomnessKind::Chain,
                    dst: pers,
                    epoch: round,
                    entropy: entropy@,
                },
            ),
    {
        self.rand.get_chain_randomness(pers, round, entropy)
    }

    fn get_chain_randomness_looking_forward(
        &self,
        pers: DomainSeparationTag,
        round: ChainEpoch,
        entropy: &[u8],
    ) -> (r: Result<[u8; 32], RandError>)
        ensures
            r matches Ok(bytes) && bytes@ == replayed(
                self.rand().recorded@,
                RandomnessRuleView {
                    kind: RandomnessKind::Chain,
                    dst: pers,
                    epoch: round,
                    entropy: entropy@,
                },
            ),
    {
        self.rand.get_chain_randomness_looking_forward(pers, round, entropy)
    }

    fn get_beacon_randomness(
        &self,
        pers: DomainSeparationTag,
        round: ChainEpoch,
        entropy: &[u8],
    ) -> (r: Result<[u8; 32], RandError>)
        ensures
            r matches Ok(bytes) && bytes@ == replayed(
                self.rand().recorded@,
                RandomnessRuleView {
                    kind: RandomnessKind::Beacon,
                    dst: pers,
                    epoch: round,
                    entropy: entropy@,
                },
            ),
    {
        self.rand.get_beacon_randomness(pers, round, entropy)
    }

    fn get_beacon_randomness_looking_forward(
        &self,
        pers: DomainSeparationTag,
        round: ChainEpoch,
        entropy: &[u8],
    ) -> (r: Result<[u8; 32], RandError>)
        ensures
            r matches Ok(bytes) && bytes@ == replayed(
                self.rand().recorded@,
                RandomnessRuleView {
                    kind: RandomnessKind::Beacon,
                    dst: pers,
                    epoch: round,
                    entropy: entropy@,
                },
            ),
    {
        self.rand.get_beacon_randomness_looking_forward(pers, round, entropy)
    }
}

impl Consensus for TestExterns<'_> {
    fn verify_consensus_fault(&self, h1: &[u8], h2: &[u8], extra: &[u8]) -> (r: Result<
        Option<ConsensusFault>,
        ConsensusError,
    >)
        ensures
            r == Ok::<Option<ConsensusFault>, ConsensusError>(None),
    {
        Ok(None)
    }
}

} // verus!
