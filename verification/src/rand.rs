//! Randomness: the source that the machine asks, one that always answers the
//! same, and one that replays recorded answers.

use crate::message::ChainEpoch;
use vstd::prelude::*;

verus! {

/// Tag that separates the uses of randomness from each other.
pub type DomainSeparationTag = i64;

/// Where a random value is drawn from.
#[derive(Clone, Copy, Debug, PartialEq, Eq, Structural)]
pub enum RandomnessKind {
    Beacon,
    Chain,
}

/// A request for randomness, as plain values.
pub struct RandomnessRuleView {
    pub kind: RandomnessKind,
    pub dst: DomainSeparationTag,
    pub epoch: ChainEpoch,
    pub entropy: Seq<u8>,
}

/// A request for randomness.
#[derive(Clone, Debug, PartialEq, Eq)]
pub struct RandomnessRule {
    pub kind: RandomnessKind,
    pub dst: DomainSeparationTag,
    pub epoch: ChainEpoch,
    pub entropy: Vec<u8>,
}

impl View for RandomnessRule {
    type V = RandomnessRuleView;

    open spec fn view(&self) -> RandomnessRuleView {
        RandomnessRuleView {
            kind: self.kind,
            dst: self.dst,
            epoch: self.epoch,
            entropy: self.entropy@,
        }
    }
}

impl RandomnessRule {
    /// Whether two requests ask the same.
    pub fn same(&self, other: &RandomnessRule) -> (r: bool)
        ensures
            r == (self@ == other@),
    {
        if self.kind != other.kind || self.dst != other.dst || self.epoch != other.epoch
            || self.entropy.len() != other.entropy.len() {
            return false;
        }
        let mut i: usize = 0;
        while i < self.entropy.len()
            invariant
                i <= self.entropy@.len(),
                self.entropy@.len() == other.entropy@.len(),
                forall|j: int| 0 <= j < i ==> self.entropy@[j] == other.entropy@[j],
            decreases self.entropy@.len() - i,
        {
            if self.entropy[i] != other.entropy[i] {
                return false;
            }
            i = i + 1;
        }
        assert(self.entropy@ =~= other.entropy@);
        true
    }
}

/// A recorded answer: the request and the 32 bytes that were returned.
#[derive(Clone, Debug, PartialEq, Eq)]
pub struct RandomnessMatch {
    pub on: RandomnessRule,
    pub ret: [u8; 32],
}

/// The randomness could not be had.
#[derive(Clone, Copy, Debug, PartialEq, Eq, Structural)]
pub struct RandError;

/// A source of randomness. Nothing is promised of what it returns.
pub trait Rand {
    fn get_chain_randomness(
        &self,
        dst: DomainSeparationTag,
        epoch: ChainEpoch,
        entropy: &[u8],
    ) -> Result<[u8; 32], RandError>;

    fn get_chain_randomness_looking_forward(
        &self,
        dst: DomainSeparationTag,
        epoch: ChainEpoch,
        entropy: &[u8],
    ) -> Result<[u8; 32], RandError>;

    fn get_beacon_randomness(
        &self,
        dst: DomainSeparationTag,
        epoch: ChainEpoch,
        entropy: &[u8],
    ) -> Result<[u8; 32], RandError>;

    fn get_beacon_randomness_looking_forward(
        &self,
        dst: DomainSeparationTag,
        epoch: ChainEpoch,
        entropy: &[u8],
    ) -> Result<[u8; 32], RandError>;
}

/// The bytes of `i_am_random_____i_am_random_____`.
pub open spec fn fallback_randomness() -> Seq<u8> {
    seq![
        105u8, 95, 97, 109, 95, 114, 97, 110, 100, 111, 109, 95, 95, 95, 95, 95,
        105, 95, 97, 109, 95, 114, 97, 110, 100, 111, 109, 95, 95, 95, 95, 95,
    ]
}

/// Returns static values as randomness.
#[derive(Clone, Copy, Debug, PartialEq, Eq, Structural)]
pub struct TestFallbackRand;

impl TestFallbackRand {
    /// The value that every request is answered with.
    pub fn answer() -> (r: [u8; 32])
        ensures
            r@ == fallback_randomness(),
    {
        let r: [u8; 32] = [
            105u8, 95, 97, 109, 95, 114, 97, 110, 100, 111, 109, 95, 95, 95, 95, 95,
            105, 95, 97, 109, 95, 114, 97, 110, 100, 111, 109, 95, 95, 95, 95, 95,
        ];
        assert(r@ =~= fallback_randomness());
        r
    }
}

impl Rand for TestFallbackRand {
    fn get_chain_randomness(
        &self,
        dst: DomainSeparationTag,
        epoch: ChainEpoch,
        entropy: &[u8],
    ) -> (r: Result<[u8; 32], RandError>)
        ensures
            r matches Ok(bytes) && bytes@ == fallback_randomness(),
    {
        Ok(Self::answer())
    }

    fn get_chain_randomness_looking_forward(
        &self,
        dst: DomainSeparationTag,
        epoch: ChainEpoch,
        entropy: &[u8],
    ) -> (r: Result<[u8; 32], RandError>)
        ensures
            r matches Ok(bytes) && bytes@ == fallback_randomness(),
    {
        Ok(Self::answer())
    }

    fn get_beacon_randomness(
        &self,
        dst: DomainSeparationTag,
        epoch: ChainEpoch,
        entropy: &[u8],
    ) -> (r: Result<[u8; 32], RandError>)
        ensures
            r matches Ok(bytes) && bytes@ == fallback_randomness(),
    {
        Ok(Self::answer())
    }

    fn get_beacon_randomness_looking_forward(
        &self,
        dst: DomainSeparationTag,
        epoch: ChainEpoch,
        entropy: &[u8],
    ) -> (r: Result<[u8; 32], RandError>)
        ensures
            r matches Ok(bytes) && bytes@ == fallback_randomness(),
    {
        Ok(Self::answer())
    }
}

/// Index of the first recorded answer to `requested`, if there is one.
pub open spec fn first_match(recorded: Seq<RandomnessMatch>, requested: RandomnessRuleView)
    -> Option<int>
    decreases recorded.len(),
{
    if recorded.len() == 0 {
        None
    } else if recorded.first().on@ == requested {
        Some(0)
    } else {
        match first_match(recorded.drop_first(), requested) {
            Some(i) => Some(i + 1),
            None => None,
        }
    }
}

/// The randomness that a replay answers a request with: the first recorded
/// answer to it, or else the fallback value.
pub open spec fn replayed(recorded: Seq<RandomnessMatch>, requested: RandomnessRuleView) -> Seq<
    u8,
> {
    match first_match(recorded, requested) {
        Some(i) => recorded[i].ret@,
        None => fallback_randomness(),
    }
}

/// Takes recorded randomness and replays it when a request matches. When
/// none does, it falls back to [`TestFallbackRand`].
#[derive(Debug)]
pub struct ReplayingRand<'a> {
    pub recorded: &'a [RandomnessMatch],
    pub fallback: TestFallbackRand,
}

proof fn lemma_first_match_skip(
    recorded: Seq<RandomnessMatch>,
    requested: RandomnessRuleView,
    i: int,
)
    requires
        0 <= i <= recorded.len(),
        forall|j: int| 0 <= j < i ==> (#[trigger] recorded[j]).on@ != requested,
    ensures
        first_match(recorded, requested) == match first_match(recorded.skip(i), requested) {
            Some(k) => Some(k + i),
            None => None::<int>,
        },
    decreases i,
{
    if i == 0 {
        assert(recorded.skip(0) =~= recorded);
    } else {
        assert(recorded[0].on@ != requested);
        let rest = recorded.drop_first();
        assert forall|j: int| 0 <= j < i - 1 implies (#[trigger] rest[j]).on@ != requested by {
            assert(recorded[j + 1].on@ != requested);
        }
        lemma_first_match_skip(rest, requested, i - 1);
        assert(rest.skip(i - 1) =~= recorded.skip(i));
    }
}

impl<'a> ReplayingRand<'a> {
    pub fn new(recorded: &'a [RandomnessMatch]) -> (r: Self)
        ensures
            r.recorded@ == recorded@,
    {
        Self { recorded, fallback: TestFallbackRand }
    }

    /// The answer recorded first for a request, if one was.
    pub fn matches(&self, requested: RandomnessRule) -> (r: Option<[u8; 32]>)
        ensures
            match first_match(self.recorded@, requested@) {
                Some(i) => r == Some(self.recorded@[i].ret),
                None => r is None,
            },
    {
        let mut i: usize = 0;
        while i < self.recorded.len()
            invariant
                i <= self.recorded@.len(),
                forall|j: int| 0 <= j < i ==> (#[trigger] self.recorded@[j]).on@ != requested@,
            decreases self.recorded@.len() - i,
        {
            if self.recorded[i].on.same(&requested) {
                proof {
                    lemma_first_match_skip(self.recorded@, requested@, i as int);
                    assert(self.recorded@.skip(i as int).first() == self.recorded@[i as int]);
                }
                return Some(self.recorded[i].ret);
            }
            i = i + 1;
        }
        proof {
            lemma_first_match_skip(self.recorded@, requested@, self.recorded@.len() as int);
            assert(self.recorded@.skip(self.recorded@.len() as int).len() == 0);
        }
        None
    }

    /// Answers a request: the recorded answer, or else the fallback value.
    fn replay(
        &self,
        kind: RandomnessKind,
        dst: DomainSeparationTag,
        epoch: ChainEpoch,
        entropy: &[u8],
    ) -> (r: Result<[u8; 32], RandError>)
        ensures
            r matches Ok(bytes) && bytes@ == replayed(
                self.recorded@,
                RandomnessRuleView { kind, dst, epoch, entropy: entropy@ },
            ),
    {
        let rule = RandomnessRule {
            kind,
            dst,
            epoch,
            entropy: crate::bytes::copy_bytes(entropy),
        };
        if let Some(bz) = self.matches(rule) {
            Ok(bz)
        } else {
            Ok(TestFallbackRand::answer())
        }
    }
}

impl Rand for ReplayingRand<'_> {
    fn get_chain_randomness(
        &self,
        dst: DomainSeparationTag,
        epoch: ChainEpoch,
        entropy: &[u8],
    ) -> (r: Result<[u8; 32], RandError>)
        ensures
            r matches Ok(bytes) && bytes@ == replayed(
                self.recorded@,
                RandomnessRuleView { kind: RandomnessKind::Chain, dst, epoch, entropy: entropy@ },
            ),
    {
        self.replay(RandomnessKind::Chain, dst, epoch, entropy)
    }

    fn get_chain_randomness_looking_forward(
        &self,
        dst: DomainSeparationTag,
        epoch: ChainEpoch,
        entropy: &[u8],
    ) -> (r: Result<[u8; 32], RandError>)
        ensures
            r matches Ok(bytes) && bytes@ == replayed(
                self.recorded@,
                RandomnessRuleView { kind: RandomnessKind::Chain, dst, epoch, entropy: entropy@ },
            ),
    {
        self.replay(RandomnessKind::Chain, dst, epoch, entropy)
    }

    fn get_beacon_randomness(
        &self,
        dst: DomainSeparationTag,
        epoch: ChainEpoch,
        entropy: &[u8],
    ) -> (r: Result<[u8; 32], RandError>)
        ensures
            r matches Ok(bytes) && bytes@ == replayed(
                self.recorded@,
                RandomnessRuleView { kind: RandomnessKind::Beacon, dst, epoch, entropy: entropy@ },
            ),
    {
        self.replay(RandomnessKind::Beacon, dst, epoch, entropy)
    }

    fn get_beacon_randomness_looking_forward(
        &self,
        dst: DomainSeparationTag,
        epoch: ChainEpoch,
        entropy: &[u8],
    ) -> (r: Result<[u8; 32], RandError>)
        ensures
            r matches Ok(bytes) && bytes@ == replayed(
                self.recorded@,
                RandomnessRuleView { kind: RandomnessKind::Beacon, dst, epoch, entropy: entropy@ },
            ),
    {
        self.replay(RandomnessKind::Beacon, dst, epoch, entropy)
    }
}

} // verus!
