use fvm::externs::{Consensus, TestExterns};
use fvm::rand::{Rand, RandomnessKind, RandomnessMatch, RandomnessRule, ReplayingRand, TestFallbackRand};

const FALLBACK: &[u8; 32] = b"i_am_random_____i_am_random_____";

fn rule(kind: RandomnessKind, dst: i64, epoch: i64, entropy: &[u8]) -> RandomnessRule {
    RandomnessRule { kind, dst, epoch, entropy: entropy.to_vec() }
}

fn recorded() -> Vec<RandomnessMatch> {
    vec![
        RandomnessMatch { on: rule(RandomnessKind::Chain, 1, 10, b"a"), ret: [1; 32] },
        RandomnessMatch { on: rule(RandomnessKind::Beacon, 1, 10, b"a"), ret: [2; 32] },
        RandomnessMatch { on: rule(RandomnessKind::Chain, 1, 10, b"a"), ret: [3; 32] },
        RandomnessMatch { on: rule(RandomnessKind::Chain, 2, 11, b""), ret: [4; 32] },
    ]
}

#[test]
fn fallback_always_answers_the_same() {
    let rand = TestFallbackRand;
    assert_eq!(TestFallbackRand::answer(), *FALLBACK);
    assert_eq!(rand.get_chain_randomness(1, 2, b"x"), Ok(*FALLBACK));
    assert_eq!(rand.get_chain_randomness_looking_forward(3, 4, b""), Ok(*FALLBACK));
    assert_eq!(rand.get_beacon_randomness(5, 6, b"y"), Ok(*FALLBACK));
    assert_eq!(rand.get_beacon_randomness_looking_forward(7, 8, b"z"), Ok(*FALLBACK));
}

#[test]
fn matches_finds_the_first_recorded_answer() {
    let recorded = recorded();
    let rand = ReplayingRand::new(&recorded);
    assert_eq!(rand.recorded.len(), 4);
    assert_eq!(rand.matches(rule(RandomnessKind::Chain, 1, 10, b"a")), Some([1; 32]));
    assert_eq!(rand.matches(rule(RandomnessKind::Beacon, 1, 10, b"a")), Some([2; 32]));
    assert_eq!(rand.matches(rule(RandomnessKind::Chain, 2, 11, b"")), Some([4; 32]));
    assert_eq!(rand.matches(rule(RandomnessKind::Chain, 1, 11, b"a")), None);
    assert_eq!(rand.matches(rule(RandomnessKind::Chain, 2, 10, b"a")), None);
    assert_eq!(rand.matches(rule(RandomnessKind::Chain, 1, 10, b"b")), None);
    assert_eq!(rand.matches(rule(RandomnessKind::Chain, 1, 10, b"ab")), None);
    assert_eq!(rand.matches(rule(RandomnessKind::Beacon, 2, 11, b"")), None);
    assert_eq!(ReplayingRand::new(&[]).matches(rule(RandomnessKind::Chain, 1, 10, b"a")), None);
}

#[test]
fn replay_falls_back_when_nothing_matches() {
    let recorded = recorded();
    let rand = ReplayingRand::new(&recorded);
    assert_eq!(rand.get_chain_randomness(1, 10, b"a"), Ok([1; 32]));
    assert_eq!(rand.get_chain_randomness_looking_forward(2, 11, b""), Ok([4; 32]));
    assert_eq!(rand.get_beacon_randomness(1, 10, b"a"), Ok([2; 32]));
    assert_eq!(rand.get_beacon_randomness_looking_forward(1, 10, b"a"), Ok([2; 32]));
    assert_eq!(rand.get_chain_randomness(9, 9, b"a"), Ok(*FALLBACK));
    assert_eq!(rand.get_beacon_randomness(2, 11, b""), Ok(*FALLBACK));
}

#[test]
fn test_externs_forward_to_the_replay() {
    let recorded = recorded();
    let externs = TestExterns::new(ReplayingRand::new(&recorded));
    assert_eq!(externs.get_chain_randomness(1, 10, b"a"), Ok([1; 32]));
    assert_eq!(externs.get_chain_randomness_looking_forward(1, 10, b"a"), Ok([1; 32]));
    assert_eq!(externs.get_beacon_randomness(1, 10, b"a"), Ok([2; 32]));
    assert_eq!(externs.get_beacon_randomness_looking_forward(0, 0, b""), Ok(*FALLBACK));
    assert_eq!(externs.verify_consensus_fault(b"h1", b"h2", b"extra"), Ok(None));
}
