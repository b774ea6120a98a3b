//! What the machine knows of the built-in account actor and of the actors
//! with reserved identifiers.

use crate::address::{ActorID, Address};
use crate::bytes::append;
use crate::cid::{hash_digest, Cid, Multihash, BLAKE2B_256, DAG_CBOR};
use crate::codes::{account_actor_code_id, builtin_code, ACCOUNT_ACTOR_CODE_ID_NAME};
use crate::state_tree::ActorState;
use vstd::prelude::*;

verus! {

/// Identifier of the system actor, the sender of the messages that the
/// machine itself synthesizes.
pub const SYSTEM_ACTOR_ID: ActorID = 0;

/// Identifier of the reward actor, which receives the miner's tip.
pub const REWARD_ACTOR_ID: ActorID = 2;

/// Identifier of the actor that burnt funds sink into.
pub const BURNT_FUNDS_ACTOR_ID: ActorID = 99;

/// The encoding of an empty array.
pub open spec fn empty_array() -> Seq<u8> {
    seq![0x80u8]
}

/// Identifier of the block that holds an empty array.
pub open spec fn spec_empty_array_cid() -> Cid {
    Cid {
        codec: DAG_CBOR,
        hash: Multihash::spec_wrap(BLAKE2B_256, hash_digest(BLAKE2B_256, empty_array())),
    }
}

/// The record that a freshly created account actor gets: no funds, no
/// messages sent, and an empty state.
pub open spec fn spec_zero_state() -> ActorState {
    ActorState {
        code: builtin_code(ACCOUNT_ACTOR_CODE_ID_NAME),
        state: spec_empty_array_cid(),
        balance: 0,
        sequence: 0,
    }
}

#[verifier::when_used_as_spec(spec_empty_array_cid)]
pub fn empty_array_cid() -> (r: Cid)
    ensures
        r == spec_empty_array_cid(),
        r.wf(),
{
    let bytes: [u8; 1] = [0x80u8];
    assert(bytes@ =~= empty_array());
    let hash = Multihash::digest_of(BLAKE2B_256, bytes.as_slice()).unwrap();
    proof {
        hash.lemma_is_wrap();
    }
    Cid::new_v1(DAG_CBOR, hash)
}

#[verifier::when_used_as_spec(spec_zero_state)]
pub fn zero_state() -> (r: ActorState)
    ensures
        r == spec_zero_state(),
{
    ActorState::new(account_actor_code_id(), empty_array_cid(), 0, 0)
}

/// Address of the system actor.
pub fn system_actor_addr() -> (r: Address)
    ensures
        r == Address::Id(SYSTEM_ACTOR_ID),
{
    Address::new_id(SYSTEM_ACTOR_ID)
}

/// A byte string of fewer than 256 bytes framed as a CBOR byte string.
pub open spec fn cbor_bytes(data: Seq<u8>) -> Seq<u8> {
    if data.len() < 24 {
        seq![(0x40 + data.len()) as u8] + data
    } else {
        seq![0x58u8, data.len() as u8] + data
    }
}

/// The parameters of the message that constructs the account of `addr`: the
/// byte form of the address as a CBOR byte string.
pub open spec fn spec_constructor_params(addr: Address) -> Seq<u8> {
    cbor_bytes(addr.spec_to_bytes())
}

pub fn constructor_params(addr: &Address) -> (r: Vec<u8>)
    ensures
        r@ == spec_constructor_params(*addr),
        r@.len() <= 51,
{
    let bytes = addr.to_bytes();
    let mut out: Vec<u8> = Vec::new();
    if bytes.len() < 24 {
        out.push((0x40 + bytes.len()) as u8);
    } else {
        out.push(0x58u8);
        out.push(bytes.len() as u8);
    }
    append(&mut out, bytes.as_slice());
    assert(out@ =~= spec_constructor_params(*addr));
    out
}

} // verus!
