//! The state tree: the mapping from actor identifiers to actor records, with
//! the registry of the addresses that resolve to them and nested snapshots.
//!
//! A tree is persisted as one block, stored under the BLAKE2b-256 hash of its
//! bytes. The block starts with three 64-bit numbers in little-endian order:
//! the next identifier, the number of actors and the number of registered
//! addresses. The actors follow in the order of their identifiers, each with
//! its identifier, the identifiers of its code and of its state, its balance
//! and its sequence; then the registered addresses in the order of their
//! identifiers, each with its protocol, its payload in 48 bytes, and its
//! identifier. Every field has a fixed width, so that equal states have equal
//! bytes, and equal bytes stand for equal states.

use crate::address::{ActorID, Address};
use crate::blockstore::{Blockstore, StoreError};
use crate::bytes::append;
use crate::cid::{hash_digest, Cid, Multihash, BLAKE2B_256, DAG_CBOR};
use vstd::bytes::{
    lemma_auto_spec_u128_to_from_le_bytes, lemma_auto_spec_u64_to_from_le_bytes,
    spec_u128_to_le_bytes, spec_u64_from_le_bytes, spec_u64_to_le_bytes,
    u128_from_le_bytes, u128_to_le_bytes, u64_from_le_bytes, u64_to_le_bytes,
};
use vstd::prelude::*;
use vstd::slice::slice_subrange;

verus! {

/// The record of one actor.
#[derive(Clone, Copy, Debug, PartialEq, Eq)]
pub struct ActorState {
    /// Identifies the code of the actor.
    pub code: Cid,
    /// Root of the actor's private state.
    pub state: Cid,
    /// Tokens that the actor holds.
    pub balance: u128,
    /// Number of messages that the actor has sent.
    pub sequence: u64,
}

/// An actor does not hold the funds asked of it, or cannot hold more.
#[derive(Clone, Copy, Debug, PartialEq, Eq, Structural)]
pub enum FundsError {
    Insufficient,
    Overflow,
}

impl ActorState {
    pub fn new(code: Cid, state: Cid, balance: u128, sequence: u64) -> (r: ActorState)
        ensures
            r == (ActorState { code, state, balance, sequence }),
    {
        ActorState { code, state, balance, sequence }
    }

    /// Takes `amt` from the balance; fails, changing nothing, when the
    /// balance is smaller.
    pub fn deduct_funds(&mut self, amt: u128) -> (r: Result<(), FundsError>)
        ensures
            r is Ok <==> amt <= old(self).balance,
            r is Ok ==> *final(self) == (ActorState {
                balance: (old(self).balance - amt) as u128,
                ..*old(self)
            }),
            r is Err ==> *final(self) == *old(self) && r == Err::<(), FundsError>(
                FundsError::Insufficient,
            ),
    {
        if self.balance < amt {
            return Err(FundsError::Insufficient);
        }
        self.balance = self.balance - amt;
        Ok(())
    }

    /// Adds `amt` to the balance; fails, changing nothing, when the sum does
    /// not fit in 128 bits.
    pub fn deposit_funds(&mut self, amt: u128) -> (r: Result<(), FundsError>)
        ensures
            r is Ok <==> old(self).balance + amt <= u128::MAX,
            r is Ok ==> *final(self) == (ActorState {
                balance: (old(self).balance + amt) as u128,
                ..*old(self)
            }),
            r is Err ==> *final(self) == *old(self) && r == Err::<(), FundsError>(
                FundsError::Overflow,
            ),
    {
        match self.balance.checked_add(amt) {
            Some(sum) => {
                self.balance = sum;
                Ok(())
            },
            None => Err(FundsError::Overflow),
        }
    }
}

/// What a state tree holds at one moment.
pub struct StateView {
    /// The actors, by identifier.
    pub actors: Map<ActorID, ActorState>,
    /// The identifiers that registered addresses resolve to.
    pub addresses: Map<Address, ActorID>,
    /// The identifier that the next registered address gets.
    pub next_id: ActorID,
}

impl StateView {
    /// The identifier that `addr` resolves to: its own for an address in ID
    /// form, the registered one for another.
    pub open spec fn resolve(&self, addr: Address) -> Option<ActorID> {
        match addr {
            Address::Id(id) => Some(id),
            _ => if self.addresses.contains_key(addr) {
                Some(self.addresses[addr])
            } else {
                None
            },
        }
    }

    /// The actor that `addr` resolves to.
    pub open spec fn actor(&self, addr: Address) -> Option<ActorState> {
        match self.resolve(addr) {
            Some(id) => if self.actors.contains_key(id) {
                Some(self.actors[id])
            } else {
                None
            },
            None => None,
        }
    }

    /// The view after `state` is stored under `id`.
    pub open spec fn with_actor(&self, id: ActorID, state: ActorState) -> StateView {
        StateView {
            actors: self.actors.insert(id, state),
            addresses: self.addresses,
            next_id: if id >= self.next_id && id < u64::MAX {
                (id + 1) as u64
            } else if id >= self.next_id {
                u64::MAX
            } else {
                self.next_id
            },
        }
    }

    /// The view after `addr` is registered under the next identifier.
    pub open spec fn with_address(&self, addr: Address) -> StateView {
        StateView {
            actors: self.actors,
            addresses: self.addresses.insert(addr, self.next_id),
            next_id: (self.next_id + 1) as u64,
        }
    }

    /// Every identifier in use lies below the next one to be assigned, unless
    /// the identifiers are exhausted.
    pub open spec fn ids_bounded(&self) -> bool {
        &&& forall|id: ActorID| #[trigger]
            self.actors.contains_key(id) ==> id < self.next_id || self.next_id == u64::MAX
        &&& forall|a: Address| #[trigger]
            self.addresses.contains_key(a) ==> self.addresses[a] < self.next_id
        &&& forall|a: Address| #[trigger] self.addresses.contains_key(a) ==> !(a is Id)
    }
}

/// A change of the current state of a tree.
pub enum Mutation {
    /// An actor is stored under an identifier.
    SetActor(ActorID, ActorState),
    /// An address is registered under the next identifier, unless it
    /// resolves already or no identifier is left.
    Register(Address),
}

/// What a state tree holds: its current state and, for each open snapshot,
/// the state that it keeps, the innermost last.
pub struct TreeView {
    pub state: StateView,
    pub snapshots: Seq<StateView>,
}

impl StateView {
    /// The state after one change.
    pub open spec fn apply(&self, mutation: Mutation) -> StateView {
        match mutation {
            Mutation::SetActor(id, state) => self.with_actor(id, state),
            Mutation::Register(addr) => if self.resolve(addr) is None && self.next_id < u64::MAX {
                self.with_address(addr)
            } else {
                *self
            },
        }
    }

    /// The state after a sequence of changes.
    pub open spec fn apply_all(&self, mutations: Seq<Mutation>) -> StateView
        decreases mutations.len(),
    {
        if mutations.len() == 0 {
            *self
        } else {
            self.apply_all(mutations.drop_last()).apply(mutations.last())
        }
    }
}

/// A sequence of one change comes to that change.
pub proof fn lemma_apply_one(state: StateView, mutation: Mutation)
    ensures
        state.apply_all(seq![mutation]) == state.apply(mutation),
{
    let one = seq![mutation];
    assert(one.drop_last() =~= Seq::<Mutation>::empty());
    assert(one.last() == mutation);
    assert(state.apply_all(one.drop_last()) == state);
}

impl TreeView {
    /// The tree after a snapshot is opened.
    pub open spec fn snapshot(&self) -> TreeView {
        TreeView { state: self.state, snapshots: self.snapshots.push(self.state) }
    }

    /// The tree after a sequence of changes of its current state.
    pub open spec fn mutate(&self, mutations: Seq<Mutation>) -> TreeView {
        TreeView { state: self.state.apply_all(mutations), snapshots: self.snapshots }
    }

    /// The tree after the innermost snapshot is reverted to.
    pub open spec fn revert(&self) -> TreeView {
        TreeView { state: self.snapshots.last(), snapshots: self.snapshots.drop_last() }
    }

    /// The tree after the innermost snapshot is cleared.
    pub open spec fn clear(&self) -> TreeView {
        TreeView { state: self.state, snapshots: self.snapshots.drop_last() }
    }
}

/// Whatever changes between a snapshot and the revert to it, the revert
/// brings the tree back to what it was before the snapshot: the state and
/// the snapshots that were open.
pub proof fn lemma_revert_restores(tree: TreeView, mutations: Seq<Mutation>)
    ensures
        tree.snapshot().mutate(mutations).revert() == tree,
{
    assert(tree.snapshots.push(tree.state).drop_last() =~= tree.snapshots);
}

/// Snapshots nest: a snapshot opened and reverted to inside another one
/// leaves the outer one as it was, and the revert to the outer one still
/// brings back what was there before it.
pub proof fn lemma_nested_revert_restores(
    tree: TreeView,
    outer: Seq<Mutation>,
    inner: Seq<Mutation>,
    rest: Seq<Mutation>,
)
    ensures
        tree.snapshot().mutate(outer).snapshot().mutate(inner).revert() == tree.snapshot().mutate(
            outer,
        ),
        tree.snapshot().mutate(outer).snapshot().mutate(inner).revert().mutate(rest).revert()
            == tree,
{
    lemma_revert_restores(tree.snapshot().mutate(outer), inner);
    lemma_revert_restores(tree, outer);
    let middle = tree.snapshot().mutate(outer);
    assert(middle.mutate(rest).snapshots == tree.snapshots.push(tree.state));
    assert(tree.snapshots.push(tree.state).drop_last() =~= tree.snapshots);
}

#[derive(Clone, Copy, Debug)]
struct ActorEntry {
    id: ActorID,
    state: ActorState,
}

#[derive(Clone, Copy, Debug)]
struct AddressEntry {
    addr: Address,
    id: ActorID,
}

spec fn has_actor(s: Seq<ActorEntry>, id: ActorID) -> bool {
    exists|i: int| 0 <= i < s.len() && (#[trigger] s[i]).id == id
}

spec fn actor_index(s: Seq<ActorEntry>, id: ActorID) -> int {
    choose|i: int| 0 <= i < s.len() && (#[trigger] s[i]).id == id
}

spec fn actors_of(s: Seq<ActorEntry>) -> Map<ActorID, ActorState> {
    Map::new(|id: ActorID| has_actor(s, id), |id: ActorID| s[actor_index(s, id)].state)
}

spec fn actors_sorted(s: Seq<ActorEntry>) -> bool {
    forall|i: int, j: int| 0 <= i < j < s.len() ==> (#[trigger] s[i]).id < (#[trigger] s[j]).id
}

/// Whether the identifiers of code and state of every actor are well formed.
spec fn actors_hashed(s: Seq<ActorEntry>) -> bool {
    forall|i: int| 0 <= i < s.len() ==> (#[trigger] s[i]).state.code.wf() && s[i].state.state.wf()
}

/// Whether the addresses stand in the order of their identifiers.
spec fn addresses_ordered(s: Seq<AddressEntry>) -> bool {
    forall|i: int, j: int| 0 <= i < j < s.len() ==> (#[trigger] s[i]).id < (#[trigger] s[j]).id
}

spec fn has_address(s: Seq<AddressEntry>, a: Address) -> bool {
    exists|i: int| 0 <= i < s.len() && (#[trigger] s[i]).addr == a
}

spec fn address_index(s: Seq<AddressEntry>, a: Address) -> int {
    choose|i: int| 0 <= i < s.len() && (#[trigger] s[i]).addr == a
}

spec fn addresses_of(s: Seq<AddressEntry>) -> Map<Address, ActorID> {
    Map::new(|a: Address| has_address(s, a), |a: Address| s[address_index(s, a)].id)
}

spec fn addresses_distinct(s: Seq<AddressEntry>) -> bool {
    forall|i: int, j: int|
        0 <= i < j < s.len() ==> (#[trigger] s[i]).addr != (#[trigger] s[j]).addr
}

proof fn lemma_actor_at(s: Seq<ActorEntry>, i: int)
    requires
        actors_sorted(s),
        0 <= i < s.len(),
    ensures
        actors_of(s).contains_key(s[i].id),
        actors_of(s)[s[i].id] == s[i].state,
        actor_index(s, s[i].id) == i,
{
    let k = actor_index(s, s[i].id);
    assert(0 <= k < s.len() && s[k].id == s[i].id);
    if k < i {
        assert(s[k].id < s[i].id);
    } else if i < k {
        assert(s[i].id < s[k].id);
    }
}

proof fn lemma_address_at(s: Seq<AddressEntry>, i: int)
    requires
        addresses_distinct(s),
        0 <= i < s.len(),
    ensures
        addresses_of(s).contains_key(s[i].addr),
        addresses_of(s)[s[i].addr] == s[i].id,
{
    let k = address_index(s, s[i].addr);
    assert(0 <= k < s.len() && s[k].addr == s[i].addr);
    if k < i {
        assert(s[k].addr != s[i].addr);
    } else if i < k {
        assert(s[i].addr != s[k].addr);
    }
}

proof fn lemma_actors_replaced(before: Seq<ActorEntry>, p: int, entry: ActorEntry)
    requires
        actors_sorted(before),
        0 <= p < before.len(),
        before[p].id == entry.id,
    ensures
        actors_sorted(before.update(p, entry)),
        actors_of(before.update(p, entry)) == actors_of(before).insert(entry.id, entry.state),
{
    let after = before.update(p, entry);
    assert forall|i: int, j: int| 0 <= i < j < after.len() implies (#[trigger] after[i]).id < (
    #[trigger] after[j]).id by {
        assert(before[i].id < before[j].id);
    }
    lemma_actor_at(after, p);
    assert forall|q: ActorID| q != entry.id implies (has_actor(after, q) == has_actor(before, q)
        && (has_actor(before, q) ==> actors_of(after)[q] == actors_of(before)[q])) by {
        if has_actor(before, q) {
            let k = actor_index(before, q);
            lemma_actor_at(before, k);
            assert(after[k] == before[k]);
            lemma_actor_at(after, k);
        }
        if has_actor(after, q) {
            let k = actor_index(after, q);
            assert(before[k] == after[k]);
        }
    }
    assert(actors_of(after) =~= actors_of(before).insert(entry.id, entry.state));
}

proof fn lemma_actors_inserted(before: Seq<ActorEntry>, p: int, entry: ActorEntry)
    requires
        actors_sorted(before),
        0 <= p <= before.len(),
        forall|i: int| 0 <= i < p ==> (#[trigger] before[i]).id < entry.id,
        forall|i: int| p <= i < before.len() ==> (#[trigger] before[i]).id > entry.id,
    ensures
        actors_sorted(before.insert(p, entry)),
        actors_of(before.insert(p, entry)) == actors_of(before).insert(entry.id, entry.state),
{
    let after = before.insert(p, entry);
    assert forall|i: int, j: int| 0 <= i < j < after.len() implies (#[trigger] after[i]).id < (
    #[trigger] after[j]).id by {
        let i0 = if i < p {
            i
        } else {
            i - 1
        };
        let j0 = if j < p {
            j
        } else {
            j - 1
        };
        if i == p {
            assert(after[j] == before[j0]);
        } else if j == p {
            assert(after[i] == before[i0]);
        } else {
            assert(after[i] == before[i0]);
            assert(after[j] == before[j0]);
            assert(before[i0].id < before[j0].id);
        }
    }
    assert(after[p] == entry);
    lemma_actor_at(after, p);
    assert forall|q: ActorID| q != entry.id implies (has_actor(after, q) == has_actor(before, q)
        && (has_actor(before, q) ==> actors_of(after)[q] == actors_of(before)[q])) by {
        if has_actor(before, q) {
            let k = actor_index(before, q);
            lemma_actor_at(before, k);
            let k2 = if k < p {
                k
            } else {
                k + 1
            };
            assert(after[k2] == before[k]);
            lemma_actor_at(after, k2);
        }
        if has_actor(after, q) {
            let k = actor_index(after, q);
            let k0 = if k < p {
                k
            } else {
                k - 1
            };
            assert(before[k0] == after[k]);
        }
    }
    assert(actors_of(after) =~= actors_of(before).insert(entry.id, entry.state));
}

proof fn lemma_actors_without_last(s: Seq<ActorEntry>)
    requires
        actors_sorted(s),
        s.len() > 0,
    ensures
        actors_sorted(s.drop_last()),
        actors_of(s.drop_last()) == actors_of(s).remove(s.last().id),
{
    let init = s.drop_last();
    assert forall|i: int, j: int| 0 <= i < j < init.len() implies (#[trigger] init[i]).id < (
    #[trigger] init[j]).id by {
        assert(s[i].id < s[j].id);
    }
    assert forall|q: ActorID|
        has_actor(init, q) == (has_actor(s, q) && q != s.last().id) && (has_actor(init, q)
            ==> actors_of(init)[q] == actors_of(s)[q]) by {
        if has_actor(init, q) {
            let k = actor_index(init, q);
            assert(s[k] == init[k]);
            assert(s[k].id < s[s.len() - 1].id);
            lemma_actor_at(init, k);
            lemma_actor_at(s, k);
        }
        if has_actor(s, q) && q != s.last().id {
            let k = actor_index(s, q);
            assert(init[k] == s[k]);
        }
    }
    assert(actors_of(init) =~= actors_of(s).remove(s.last().id));
}

/// Only one list in the order of the identifiers stands for a set of actors.
proof fn lemma_actors_unique(a: Seq<ActorEntry>, b: Seq<ActorEntry>)
    requires
        actors_sorted(a),
        actors_sorted(b),
        actors_of(a) == actors_of(b),
    ensures
        a == b,
    decreases a.len(),
{
    if a.len() == 0 {
        if b.len() > 0 {
            lemma_actor_at(b, 0);
            assert(has_actor(a, b[0].id));
        }
        assert(a =~= b);
    } else {
        let last = a.len() - 1;
        lemma_actor_at(a, last);
        assert(has_actor(b, a[last].id));
        let j = actor_index(b, a[last].id);
        let last_b = b.len() - 1;
        lemma_actor_at(b, last_b);
        assert(has_actor(a, b[last_b].id));
        let i = actor_index(a, b[last_b].id);
        if i < last {
            assert(a[i].id < a[last].id);
        }
        if j < last_b {
            assert(b[j].id < b[last_b].id);
        }
        assert(a[last].id == b[last_b].id);
        assert(a.last() == b.last());
        lemma_actors_without_last(a);
        lemma_actors_without_last(b);
        lemma_actors_unique(a.drop_last(), b.drop_last());
        assert(a =~= a.drop_last().push(a.last()));
        assert(b =~= b.drop_last().push(b.last()));
    }
}

proof fn lemma_addresses_without_last(s: Seq<AddressEntry>)
    requires
        addresses_distinct(s),
        addresses_ordered(s),
        s.len() > 0,
    ensures
        addresses_distinct(s.drop_last()),
        addresses_ordered(s.drop_last()),
        addresses_of(s.drop_last()) == addresses_of(s).remove(s.last().addr),
{
    let init = s.drop_last();
    assert forall|i: int, j: int| 0 <= i < j < init.len() implies (#[trigger] init[i]).addr != (
    #[trigger] init[j]).addr by {
        assert(s[i].addr != s[j].addr);
    }
    assert forall|i: int, j: int| 0 <= i < j < init.len() implies (#[trigger] init[i]).id < (
    #[trigger] init[j]).id by {
        assert(s[i].id < s[j].id);
    }
    assert forall|q: Address|
        has_address(init, q) == (has_address(s, q) && q != s.last().addr) && (has_address(init, q)
            ==> addresses_of(init)[q] == addresses_of(s)[q]) by {
        if has_address(init, q) {
            let k = address_index(init, q);
            assert(s[k] == init[k]);
            assert(s[k].addr != s[s.len() - 1].addr);
            lemma_address_at(init, k);
            lemma_address_at(s, k);
        }
        if has_address(s, q) && q != s.last().addr {
            let k = address_index(s, q);
            assert(init[k] == s[k]);
        }
    }
    assert(addresses_of(init) =~= addresses_of(s).remove(s.last().addr));
}

/// Only one list in the order of the identifiers stands for a registry of
/// addresses.
proof fn lemma_addresses_unique(a: Seq<AddressEntry>, b: Seq<AddressEntry>)
    requires
        addresses_distinct(a),
        addresses_ordered(a),
        addresses_distinct(b),
        addresses_ordered(b),
        addresses_of(a) == addresses_of(b),
    ensures
        a == b,
    decreases a.len(),
{
    if a.len() == 0 {
        if b.len() > 0 {
            lemma_address_at(b, 0);
            assert(has_address(a, b[0].addr));
        }
        assert(a =~= b);
    } else {
        let last = a.len() - 1;
        lemma_address_at(a, last);
        assert(has_address(b, a[last].addr));
        let j = address_index(b, a[last].addr);
        lemma_address_at(b, j);
        let last_b = b.len() - 1;
        lemma_address_at(b, last_b);
        assert(has_address(a, b[last_b].addr));
        let i = address_index(a, b[last_b].addr);
        lemma_address_at(a, i);
        if i < last {
            assert(a[i].id < a[last].id);
        }
        if j < last_b {
            assert(b[j].id < b[last_b].id);
        }
        assert(j == last_b);
        assert(a.last() == b.last());
        lemma_addresses_without_last(a);
        lemma_addresses_without_last(b);
        lemma_addresses_unique(a.drop_last(), b.drop_last());
        assert(a =~= a.drop_last().push(a.last()));
        assert(b =~= b.drop_last().push(b.last()));
    }
}

/// One state of the tree: the current one, or one kept for a snapshot.
#[derive(Debug)]
struct Layer {
    actors: Vec<ActorEntry>,
    addresses: Vec<AddressEntry>,
    next_id: ActorID,
}

impl Layer {
    spec fn view(&self) -> StateView {
        StateView {
            actors: actors_of(self.actors@),
            addresses: addresses_of(self.addresses@),
            next_id: self.next_id,
        }
    }

    spec fn wf(&self) -> bool {
        &&& actors_sorted(self.actors@)
        &&& actors_hashed(self.actors@)
        &&& addresses_distinct(self.addresses@)
        &&& addresses_ordered(self.addresses@)
        &&& self.view().ids_bounded()
    }

    fn duplicate(&self) -> (r: Layer)
        ensures
            r.actors@ == self.actors@,
            r.addresses@ == self.addresses@,
            r.next_id == self.next_id,
    {
        Layer {
            actors: self.actors.clone(),
            addresses: self.addresses.clone(),
            next_id: self.next_id,
        }
    }

    /// Position of the first actor whose identifier is not below `id`.
    fn position(&self, id: ActorID) -> (p: usize)
        requires
            actors_sorted(self.actors@),
        ensures
            p <= self.actors@.len(),
            forall|i: int| 0 <= i < p ==> (#[trigger] self.actors@[i]).id < id,
            forall|i: int| p <= i < self.actors@.len() ==> (#[trigger] self.actors@[i]).id >= id,
    {
        let mut p: usize = 0;
        while p < self.actors.len() && self.actors[p].id < id
            invariant
                p <= self.actors@.len(),
                forall|i: int| 0 <= i < p ==> (#[trigger] self.actors@[i]).id < id,
                actors_sorted(self.actors@),
            decreases self.actors@.len() - p,
        {
            p = p + 1;
        }
        assert forall|i: int| p <= i < self.actors@.len() implies (#[trigger] self.actors@[i]).id
            >= id by {
            if p < i {
                assert(self.actors@[p as int].id < self.actors@[i].id);
            }
        }
        p
    }

    fn get(&self, id: ActorID) -> (r: Option<ActorState>)
        requires
            self.wf(),
        ensures
            r is Some <==> self.view().actors.contains_key(id),
            r matches Some(a) ==> a == self.view().actors[id],
    {
        let p = self.position(id);
        if p < self.actors.len() && self.actors[p].id == id {
            proof {
                lemma_actor_at(self.actors@, p as int);
            }
            Some(self.actors[p].state)
        } else {
            proof {
                if has_actor(self.actors@, id) {
                    let k = actor_index(self.actors@, id);
                    assert(self.actors@[k].id == id);
                }
            }
            None
        }
    }

    fn set(&mut self, id: ActorID, state: ActorState)
        requires
            old(self).wf(),
        ensures
            final(self).wf(),
            final(self).view() == old(self).view().with_actor(id, state),
    {
        let p = self.position(id);
        let ghost before = self.actors@;
        let entry = ActorEntry { id, state };
        proof {
            use_type_invariant(&state.code.hash);
            use_type_invariant(&state.state.hash);
        }
        if p < self.actors.len() && self.actors[p].id == id {
            self.actors[p] = entry;
            proof {
                lemma_actors_replaced(before, p as int, entry);
            }
        } else {
            self.actors.insert(p, entry);
            proof {
                lemma_actors_inserted(before, p as int, entry);
                assert forall|i: int| 0 <= i < self.actors@.len() implies (
                #[trigger] self.actors@[i]).state.code.wf() && self.actors@[i].state.state.wf() by {
                    if i < p {
                        assert(self.actors@[i] == before[i]);
                    } else if i > p {
                        assert(self.actors@[i] == before[i - 1]);
                    }
                }
            }
        }
        if id >= self.next_id {
            self.next_id = if id < u64::MAX {
                id + 1
            } else {
                u64::MAX
            };
        }
        proof {
            let old_view = old(self).view();
            let new_view = final(self).view();
            assert(new_view.addresses == old_view.addresses);
            assert(new_view.next_id >= old_view.next_id);
            assert forall|q: ActorID| #[trigger] new_view.actors.contains_key(q) implies q
                < new_view.next_id || new_view.next_id == u64::MAX by {
                if q != id {
                    assert(old_view.actors.contains_key(q));
                }
            }
            assert forall|a: Address| #[trigger] new_view.addresses.contains_key(a) implies
                new_view.addresses[a] < new_view.next_id && !(a is Id) by {
                assert(old_view.addresses.contains_key(a));
            }
        }
    }

    fn find_address(&self, addr: &Address) -> (r: Option<ActorID>)
        requires
            self.wf(),
        ensures
            r is Some <==> self.view().addresses.contains_key(*addr),
            r matches Some(id) ==> id == self.view().addresses[*addr],
    {
        let mut i: usize = 0;
        while i < self.addresses.len()
            invariant
                i <= self.addresses@.len(),
                addresses_distinct(self.addresses@),
                forall|j: int| 0 <= j < i ==> (#[trigger] self.addresses@[j]).addr != *addr,
            decreases self.addresses@.len() - i,
        {
            if self.addresses[i].addr.same(addr) {
                proof {
                    lemma_address_at(self.addresses@, i as int);
                }
                return Some(self.addresses[i].id);
            }
            i = i + 1;
        }
        proof {
            if has_address(self.addresses@, *addr) {
                let k = address_index(self.addresses@, *addr);
                assert(self.addresses@[k].addr == *addr);
            }
        }
        None
    }

    fn resolve(&self, addr: &Address) -> (r: Option<ActorID>)
        requires
            self.wf(),
        ensures
            r == self.view().resolve(*addr),
    {
        match addr {
            Address::Id(id) => Some(*id),
            _ => self.find_address(addr),
        }
    }

    fn register(&mut self, addr: &Address) -> (id: ActorID)
        requires
            old(self).wf(),
            old(self).view().resolve(*addr) is None,
            old(self).next_id < u64::MAX,
        ensures
            final(self).wf(),
            id == old(self).next_id,
            final(self).view() == old(self).view().with_address(*addr),
    {
        let ghost before = self.addresses@;
        let id = self.next_id;
        let entry = AddressEntry { addr: *addr, id };
        self.addresses.push(entry);
        self.next_id = id + 1;
        proof {
            let after = self.addresses@;
            assert forall|i: int, j: int| 0 <= i < j < after.len() implies (#[trigger] after[i]).addr
                != (#[trigger] after[j]).addr by {
                if j == before.len() {
                    assert(before[i].addr != *addr);
                } else {
                    assert(before[i].addr != before[j].addr);
                }
            }
            assert forall|i: int, j: int| 0 <= i < j < after.len() implies (#[trigger] after[i]).id
                < (#[trigger] after[j]).id by {
                if j == before.len() {
                    lemma_address_at(before, i);
                    assert(old(self).view().addresses.contains_key(before[i].addr));
                } else {
                    assert(before[i].id < before[j].id);
                }
            }
            lemma_address_at(after, before.len() as int);
            assert forall|a: Address| a != *addr implies (has_address(after, a) == has_address(
                before,
                a,
            ) && (has_address(before, a) ==> addresses_of(after)[a] == addresses_of(before)[a])) by {
                if has_address(before, a) {
                    let k = address_index(before, a);
                    lemma_address_at(before, k);
                    assert(after[k] == before[k]);
                    lemma_address_at(after, k);
                }
                if has_address(after, a) {
                    let k = address_index(after, a);
                    assert(before[k] == after[k]);
                }
            }
            assert(addresses_of(after) =~= addresses_of(before).insert(*addr, id));
            let old_view = old(self).view();
            let new_view = final(self).view();
            assert(new_view.actors == old_view.actors);
            assert forall|q: ActorID| #[trigger] new_view.actors.contains_key(q) implies q
                < new_view.next_id || new_view.next_id == u64::MAX by {
                assert(old_view.actors.contains_key(q));
            }
            assert forall|a: Address| #[trigger] new_view.addresses.contains_key(a) implies
                new_view.addresses[a] < new_view.next_id && !(a is Id) by {
                if a != *addr {
                    assert(old_view.addresses.contains_key(a));
                }
            }
        }
        id
    }
}

/// Length of the header of an encoded state: the next identifier and the
/// numbers of actors and of addresses.
pub const HEADER_LEN: usize = 24;

/// Length of an encoded actor: its identifier, the two identifiers of its
/// code and state, its balance and its sequence.
pub const ACTOR_ENTRY_LEN: usize = 194;

/// Length of an encoded address registration: the protocol, 48 bytes of
/// payload, and the identifier.
pub const ADDRESS_ENTRY_LEN: usize = 57;

/// `n` zero bytes.
pub open spec fn zeros(n: nat) -> Seq<u8> {
    Seq::new(n, |i: int| 0u8)
}

spec fn encode_actor(e: ActorEntry) -> Seq<u8> {
    spec_u64_to_le_bytes(e.id) + e.state.code.spec_encoding() + e.state.state.spec_encoding()
        + spec_u128_to_le_bytes(e.state.balance) + spec_u64_to_le_bytes(e.state.sequence)
}

spec fn encode_actors(s: Seq<ActorEntry>) -> Seq<u8>
    decreases s.len(),
{
    if s.len() == 0 {
        Seq::empty()
    } else {
        encode_actors(s.drop_last()) + encode_actor(s.last())
    }
}

spec fn encode_form(addr: Address) -> Seq<u8> {
    match addr {
        Address::Id(id) => seq![0u8] + spec_u64_to_le_bytes(id) + zeros(40),
        Address::Secp256k1(hash) => seq![1u8] + hash@ + zeros(28),
        Address::Actor(hash) => seq![2u8] + hash@ + zeros(28),
        Address::Bls(key) => seq![3u8] + key@,
    }
}

spec fn encode_address(e: AddressEntry) -> Seq<u8> {
    encode_form(e.addr) + spec_u64_to_le_bytes(e.id)
}

spec fn encode_addresses(s: Seq<AddressEntry>) -> Seq<u8>
    decreases s.len(),
{
    if s.len() == 0 {
        Seq::empty()
    } else {
        encode_addresses(s.drop_last()) + encode_address(s.last())
    }
}

spec fn encode_header(next_id: ActorID, actors: nat, addresses: nat) -> Seq<u8> {
    spec_u64_to_le_bytes(next_id) + spec_u64_to_le_bytes(actors as u64) + spec_u64_to_le_bytes(
        addresses as u64,
    )
}

proof fn lemma_actor_len(e: ActorEntry)
    requires
        e.state.code.wf(),
        e.state.state.wf(),
    ensures
        encode_actor(e).len() == ACTOR_ENTRY_LEN,
{
    lemma_auto_spec_u64_to_from_le_bytes();
    lemma_auto_spec_u128_to_from_le_bytes();
    e.state.code.lemma_encoding_shape();
    e.state.state.lemma_encoding_shape();
}

proof fn lemma_address_len(e: AddressEntry)
    ensures
        encode_address(e).len() == ADDRESS_ENTRY_LEN,
{
    lemma_auto_spec_u64_to_from_le_bytes();
}

fn write_actor(e: &ActorEntry, out: &mut Vec<u8>)
    ensures
        final(out)@ == old(out)@ + encode_actor(*e),
{
    let id = u64_to_le_bytes(e.id);
    append(out, id.as_slice());
    e.state.code.encode(out);
    e.state.state.encode(out);
    let balance = u128_to_le_bytes(e.state.balance);
    append(out, balance.as_slice());
    let sequence = u64_to_le_bytes(e.state.sequence);
    append(out, sequence.as_slice());
    assert(out@ =~= old(out)@ + encode_actor(*e));
}

fn write_zeros(out: &mut Vec<u8>, n: usize)
    ensures
        final(out)@ == old(out)@ + zeros(n as nat),
{
    let mut i: usize = 0;
    while i < n
        invariant
            i <= n,
            out@ == old(out)@ + zeros(i as nat),
        decreases n - i,
    {
        out.push(0u8);
        assert(out@ =~= old(out)@ + zeros((i + 1) as nat));
        i = i + 1;
    }
}

fn write_address(e: &AddressEntry, out: &mut Vec<u8>)
    ensures
        final(out)@ == old(out)@ + encode_address(*e),
{
    match &e.addr {
        Address::Id(id) => {
            out.push(0u8);
            let bytes = u64_to_le_bytes(*id);
            append(out, bytes.as_slice());
            write_zeros(out, 40);
        },
        Address::Secp256k1(hash) => {
            out.push(1u8);
            append(out, hash.as_slice());
            write_zeros(out, 28);
        },
        Address::Actor(hash) => {
            out.push(2u8);
            append(out, hash.as_slice());
            write_zeros(out, 28);
        },
        Address::Bls(key) => {
            out.push(3u8);
            append(out, key.as_slice());
        },
    }
    let id = u64_to_le_bytes(e.id);
    append(out, id.as_slice());
    assert(out@ =~= old(out)@ + encode_address(*e));
}

/// Whether `bytes` has the shape of an encoded actor.
spec fn actor_encoded(bytes: Seq<u8>) -> bool {
    &&& bytes.len() == ACTOR_ENTRY_LEN
    &&& Cid::encoded(bytes.subrange(8, 89))
    &&& Cid::encoded(bytes.subrange(89, 170))
}

fn read_actor(bytes: &[u8]) -> (r: Option<ActorEntry>)
    requires
        bytes@.len() == ACTOR_ENTRY_LEN,
    ensures
        r is Some <==> actor_encoded(bytes@),
        r matches Some(e) ==> encode_actor(e) == bytes@ && e.state.code.wf() && e.state.state.wf(),
{
    let id = u64_from_le_bytes(slice_subrange(bytes, 0, 8));
    let code = match Cid::decode(slice_subrange(bytes, 8, 89)) {
        Some(code) => code,
        None => {
            return None;
        },
    };
    let state = match Cid::decode(slice_subrange(bytes, 89, 170)) {
        Some(state) => state,
        None => {
            return None;
        },
    };
    let balance = u128_from_le_bytes(slice_subrange(bytes, 170, 186));
    let sequence = u64_from_le_bytes(slice_subrange(bytes, 186, 194));
    let e = ActorEntry { id, state: ActorState { code, state, balance, sequence } };
    proof {
        lemma_auto_spec_u64_to_from_le_bytes();
        lemma_auto_spec_u128_to_from_le_bytes();
        assert(spec_u64_to_le_bytes(id) == bytes@.subrange(0, 8));
        assert(spec_u128_to_le_bytes(balance) == bytes@.subrange(170, 186));
        assert(spec_u64_to_le_bytes(sequence) == bytes@.subrange(186, 194));
        assert(encode_actor(e) =~= bytes@);
    }
    Some(e)
}

/// Whether the bytes of `bytes` from `from` on are zero.
spec fn zero_from(bytes: Seq<u8>, from: int) -> bool {
    forall|i: int| from <= i < bytes.len() ==> bytes[i] == 0
}

/// Whether `bytes` has the shape of an encoded address form.
spec fn form_encoded(bytes: Seq<u8>) -> bool {
    &&& bytes.len() == 49
    &&& bytes[0] <= 3
    &&& bytes[0] == 0 ==> zero_from(bytes, 9)
    &&& (bytes[0] == 1 || bytes[0] == 2) ==> zero_from(bytes, 21)
}

fn is_zero_from(bytes: &[u8], from: usize) -> (r: bool)
    requires
        from <= bytes@.len(),
    ensures
        r == zero_from(bytes@, from as int),
{
    let mut i: usize = from;
    while i < bytes.len()
        invariant
            from <= i <= bytes@.len(),
            forall|k: int| from <= k < i ==> bytes@[k] == 0,
        decreases bytes@.len() - i,
    {
        if bytes[i] != 0 {
            return false;
        }
        i = i + 1;
    }
    true
}

fn read_hash(bytes: &[u8]) -> (r: [u8; 20])
    requires
        bytes@.len() == 20,
    ensures
        r@ == bytes@,
{
    let mut out = [0u8; 20];
    let mut i: usize = 0;
    while i < 20
        invariant
            i <= 20,
            bytes@.len() == 20,
            forall|k: int| 0 <= k < i ==> out[k] == bytes@[k],
        decreases 20 - i,
    {
        out[i] = bytes[i];
        i = i + 1;
    }
    assert(out@ =~= bytes@);
    out
}

fn read_key(bytes: &[u8]) -> (r: [u8; 48])
    requires
        bytes@.len() == 48,
    ensures
        r@ == bytes@,
{
    let mut out = [0u8; 48];
    let mut i: usize = 0;
    while i < 48
        invariant
            i <= 48,
            bytes@.len() == 48,
            forall|k: int| 0 <= k < i ==> out[k] == bytes@[k],
        decreases 48 - i,
    {
        out[i] = bytes[i];
        i = i + 1;
    }
    assert(out@ =~= bytes@);
    out
}

fn read_form(bytes: &[u8]) -> (r: Option<Address>)
    requires
        bytes@.len() == 49,
    ensures
        r is Some <==> form_encoded(bytes@),
        r matches Some(a) ==> encode_form(a) == bytes@,
{
    let protocol = bytes[0];
    proof {
        lemma_auto_spec_u64_to_from_le_bytes();
    }
    if protocol == 0 {
        if !is_zero_from(bytes, 9) {
            return None;
        }
        let id = u64_from_le_bytes(slice_subrange(bytes, 1, 9));
        let a = Address::Id(id);
        assert(spec_u64_to_le_bytes(id) == bytes@.subrange(1, 9));
        assert(encode_form(a) =~= bytes@);
        Some(a)
    } else if protocol == 1 || protocol == 2 {
        if !is_zero_from(bytes, 21) {
            return None;
        }
        let hash = read_hash(slice_subrange(bytes, 1, 21));
        let a = if protocol == 1 {
            Address::Secp256k1(hash)
        } else {
            Address::Actor(hash)
        };
        assert(encode_form(a) =~= bytes@);
        Some(a)
    } else if protocol == 3 {
        let key = read_key(slice_subrange(bytes, 1, 49));
        let a = Address::Bls(key);
        assert(encode_form(a) =~= bytes@);
        Some(a)
    } else {
        None
    }
}

fn read_address(bytes: &[u8]) -> (r: Option<AddressEntry>)
    requires
        bytes@.len() == ADDRESS_ENTRY_LEN,
    ensures
        r is Some <==> form_encoded(bytes@.subrange(0, 49)),
        r matches Some(e) ==> encode_address(e) == bytes@,
{
    let addr = match read_form(slice_subrange(bytes, 0, 49)) {
        Some(addr) => addr,
        None => {
            return None;
        },
    };
    let id = u64_from_le_bytes(slice_subrange(bytes, 49, 57));
    let e = AddressEntry { addr, id };
    proof {
        lemma_auto_spec_u64_to_from_le_bytes();
        assert(spec_u64_to_le_bytes(id) == bytes@.subrange(49, 57));
        assert(encode_address(e) =~= bytes@);
    }
    Some(e)
}

/// The `i`-th piece of `size` bytes of `bytes` after the first `start`.
spec fn chunk(bytes: Seq<u8>, start: int, size: int, i: int) -> Seq<u8> {
    bytes.subrange(start + size * i, start + size * i + size)
}

proof fn lemma_actor_shape(e: ActorEntry)
    requires
        e.state.code.wf(),
        e.state.state.wf(),
    ensures
        actor_encoded(encode_actor(e)),
{
    lemma_auto_spec_u64_to_from_le_bytes();
    lemma_auto_spec_u128_to_from_le_bytes();
    e.state.code.lemma_encoding_shape();
    e.state.state.lemma_encoding_shape();
    let b = encode_actor(e);
    assert(b.subrange(8, 89) =~= e.state.code.spec_encoding());
    assert(b.subrange(89, 170) =~= e.state.state.spec_encoding());
}

proof fn lemma_actor_injective(a: ActorEntry, b: ActorEntry)
    requires
        a.state.code.wf(),
        a.state.state.wf(),
        b.state.code.wf(),
        b.state.state.wf(),
        encode_actor(a) == encode_actor(b),
    ensures
        a == b,
{
    lemma_auto_spec_u64_to_from_le_bytes();
    lemma_auto_spec_u128_to_from_le_bytes();
    a.state.code.lemma_encoding_shape();
    a.state.state.lemma_encoding_shape();
    b.state.code.lemma_encoding_shape();
    b.state.state.lemma_encoding_shape();
    let ea = encode_actor(a);
    let eb = encode_actor(b);
    assert(ea.subrange(0, 8) =~= spec_u64_to_le_bytes(a.id));
    assert(eb.subrange(0, 8) =~= spec_u64_to_le_bytes(b.id));
    assert(ea.subrange(8, 89) =~= a.state.code.spec_encoding());
    assert(eb.subrange(8, 89) =~= b.state.code.spec_encoding());
    assert(ea.subrange(89, 170) =~= a.state.state.spec_encoding());
    assert(eb.subrange(89, 170) =~= b.state.state.spec_encoding());
    assert(ea.subrange(170, 186) =~= spec_u128_to_le_bytes(a.state.balance));
    assert(eb.subrange(170, 186) =~= spec_u128_to_le_bytes(b.state.balance));
    assert(ea.subrange(186, 194) =~= spec_u64_to_le_bytes(a.state.sequence));
    assert(eb.subrange(186, 194) =~= spec_u64_to_le_bytes(b.state.sequence));
    Cid::lemma_encoding_injective(a.state.code, b.state.code);
    Cid::lemma_encoding_injective(a.state.state, b.state.state);
}

proof fn lemma_actors_layout(s: Seq<ActorEntry>)
    requires
        actors_hashed(s),
    ensures
        encode_actors(s).len() == 194 * s.len(),
        forall|i: int|
            0 <= i < s.len() ==> #[trigger] chunk(encode_actors(s), 0, 194, i) == encode_actor(
                s[i],
            ),
    decreases s.len(),
{
    if s.len() > 0 {
        let init = s.drop_last();
        assert(actors_hashed(init)) by {
            assert forall|i: int| 0 <= i < init.len() implies (#[trigger] init[i]).state.code.wf()
                && init[i].state.state.wf() by {
                assert(init[i] == s[i]);
            }
        }
        lemma_actors_layout(init);
        lemma_actor_len(s.last());
        let whole = encode_actors(s);
        assert(whole == encode_actors(init) + encode_actor(s.last()));
        assert forall|i: int| 0 <= i < s.len() implies #[trigger] chunk(whole, 0, 194, i)
            == encode_actor(s[i]) by {
            if i < init.len() {
                assert(chunk(whole, 0, 194, i) =~= chunk(encode_actors(init), 0, 194, i));
                assert(init[i] == s[i]);
            } else {
                assert(chunk(whole, 0, 194, i) =~= encode_actor(s.last()));
            }
        }
    }
}

proof fn lemma_form_injective(a: Address, b: Address)
    requires
        encode_form(a) == encode_form(b),
    ensures
        a == b,
{
    lemma_auto_spec_u64_to_from_le_bytes();
    let ea = encode_form(a);
    let eb = encode_form(b);
    assert(ea[0] == eb[0]);
    match (a, b) {
        (Address::Id(x), Address::Id(y)) => {
            assert(ea.subrange(1, 9) =~= spec_u64_to_le_bytes(x));
            assert(eb.subrange(1, 9) =~= spec_u64_to_le_bytes(y));
        },
        (Address::Secp256k1(x), Address::Secp256k1(y)) => {
            assert(ea.subrange(1, 21) =~= x@);
            assert(eb.subrange(1, 21) =~= y@);
            assert(x == y) by {
                broadcast use vstd::array::group_array_axioms;

            }
        },
        (Address::Actor(x), Address::Actor(y)) => {
            assert(ea.subrange(1, 21) =~= x@);
            assert(eb.subrange(1, 21) =~= y@);
            assert(x == y) by {
                broadcast use vstd::array::group_array_axioms;

            }
        },
        (Address::Bls(x), Address::Bls(y)) => {
            assert(ea.subrange(1, 49) =~= x@);
            assert(eb.subrange(1, 49) =~= y@);
            assert(x == y) by {
                broadcast use vstd::array::group_array_axioms;

            }
        },
        _ => {},
    }
}

proof fn lemma_form_shape(a: Address)
    ensures
        form_encoded(encode_form(a)),
{
    lemma_auto_spec_u64_to_from_le_bytes();
}

proof fn lemma_address_injective(a: AddressEntry, b: AddressEntry)
    requires
        encode_address(a) == encode_address(b),
    ensures
        a == b,
{
    lemma_auto_spec_u64_to_from_le_bytes();
    lemma_form_shape(a.addr);
    lemma_form_shape(b.addr);
    let ea = encode_address(a);
    let eb = encode_address(b);
    assert(ea.subrange(0, 49) =~= encode_form(a.addr));
    assert(eb.subrange(0, 49) =~= encode_form(b.addr));
    assert(ea.subrange(49, 57) =~= spec_u64_to_le_bytes(a.id));
    assert(eb.subrange(49, 57) =~= spec_u64_to_le_bytes(b.id));
    lemma_form_injective(a.addr, b.addr);
}

proof fn lemma_addresses_layout(s: Seq<AddressEntry>)
    ensures
        encode_addresses(s).len() == 57 * s.len(),
        forall|i: int|
            0 <= i < s.len() ==> #[trigger] chunk(encode_addresses(s), 0, 57, i) == encode_address(
                s[i],
            ),
    decreases s.len(),
{
    if s.len() > 0 {
        let init = s.drop_last();
        lemma_addresses_layout(init);
        lemma_address_len(s.last());
        let whole = encode_addresses(s);
        assert(whole == encode_addresses(init) + encode_address(s.last()));
        assert forall|i: int| 0 <= i < s.len() implies #[trigger] chunk(whole, 0, 57, i)
            == encode_address(s[i]) by {
            if i < init.len() {
                assert(chunk(whole, 0, 57, i) =~= chunk(encode_addresses(init), 0, 57, i));
                assert(init[i] == s[i]);
            } else {
                assert(chunk(whole, 0, 57, i) =~= encode_address(s.last()));
            }
        }
    }
}

impl Layer {
    spec fn encoding(&self) -> Seq<u8> {
        encode_header(self.next_id, self.actors@.len(), self.addresses@.len()) + encode_actors(
            self.actors@,
        ) + encode_addresses(self.addresses@)
    }

    /// Where the parts of an encoded state lie.
    proof fn lemma_layout(&self)
        requires
            actors_hashed(self.actors@),
        ensures
            self.encoding().len() == 24 + 194 * self.actors@.len() + 57 * self.addresses@.len(),
            self.encoding().subrange(0, 8) == spec_u64_to_le_bytes(self.next_id),
            self.encoding().subrange(8, 16) == spec_u64_to_le_bytes(self.actors@.len() as u64),
            self.encoding().subrange(16, 24) == spec_u64_to_le_bytes(
                self.addresses@.len() as u64,
            ),
            forall|i: int|
                0 <= i < self.actors@.len() ==> #[trigger] chunk(self.encoding(), 24, 194, i)
                    == encode_actor(self.actors@[i]),
            forall|j: int|
                0 <= j < self.addresses@.len() ==> #[trigger] chunk(
                    self.encoding(),
                    24 + 194 * (self.actors@.len() as int),
                    57,
                    j,
                ) == encode_address(self.addresses@[j]),
    {
        lemma_auto_spec_u64_to_from_le_bytes();
        lemma_actors_layout(self.actors@);
        lemma_addresses_layout(self.addresses@);
        let e = self.encoding();
        let n = self.actors@.len() as int;
        let a = encode_actors(self.actors@);
        let d = encode_addresses(self.addresses@);
        assert(e.subrange(0, 8) =~= spec_u64_to_le_bytes(self.next_id));
        assert(e.subrange(8, 16) =~= spec_u64_to_le_bytes(self.actors@.len() as u64));
        assert(e.subrange(16, 24) =~= spec_u64_to_le_bytes(self.addresses@.len() as u64));
        assert forall|i: int| 0 <= i < self.actors@.len() implies #[trigger] chunk(e, 24, 194, i)
            == encode_actor(self.actors@[i]) by {
            assert(194 * i + 194 <= 194 * n) by (nonlinear_arith)
                requires
                    0 <= i < n,
            ;
            assert(chunk(e, 24, 194, i) =~= chunk(a, 0, 194, i));
        }
        assert forall|j: int| 0 <= j < self.addresses@.len() implies #[trigger] chunk(
            e,
            24 + 194 * n,
            57,
            j,
        ) == encode_address(self.addresses@[j]) by {
            assert(57 * j + 57 <= 57 * self.addresses@.len()) by (nonlinear_arith)
                requires
                    0 <= j < self.addresses@.len(),
            ;
            assert(chunk(e, 24 + 194 * n, 57, j) =~= chunk(d, 0, 57, j));
        }
    }

    fn encode(&self) -> (r: Vec<u8>)
        ensures
            r@ == self.encoding(),
    {
        let mut out: Vec<u8> = Vec::new();
        let next_id = u64_to_le_bytes(self.next_id);
        append(&mut out, next_id.as_slice());
        let actors = u64_to_le_bytes(self.actors.len() as u64);
        append(&mut out, actors.as_slice());
        let addresses = u64_to_le_bytes(self.addresses.len() as u64);
        append(&mut out, addresses.as_slice());
        let ghost header = encode_header(
            self.next_id,
            self.actors@.len(),
            self.addresses@.len(),
        );
        assert(out@ =~= header);
        let mut i: usize = 0;
        assert(self.actors@.subrange(0, 0) =~= Seq::<ActorEntry>::empty());
        while i < self.actors.len()
            invariant
                i <= self.actors@.len(),
                out@ == header + encode_actors(self.actors@.subrange(0, i as int)),
            decreases self.actors@.len() - i,
        {
            write_actor(&self.actors[i], &mut out);
            proof {
                let next = self.actors@.subrange(0, i + 1);
                assert(next.drop_last() =~= self.actors@.subrange(0, i as int));
                assert(next.last() == self.actors@[i as int]);
                assert(out@ =~= header + encode_actors(next));
            }
            i = i + 1;
        }
        assert(self.actors@.subrange(0, self.actors@.len() as int) =~= self.actors@);
        let ghost front = header + encode_actors(self.actors@);
        let mut j: usize = 0;
        assert(self.addresses@.subrange(0, 0) =~= Seq::<AddressEntry>::empty());
        assert(out@ =~= front + encode_addresses(self.addresses@.subrange(0, 0)));
        while j < self.addresses.len()
            invariant
                j <= self.addresses@.len(),
                out@ == front + encode_addresses(self.addresses@.subrange(0, j as int)),
            decreases self.addresses@.len() - j,
        {
            write_address(&self.addresses[j], &mut out);
            proof {
                let next = self.addresses@.subrange(0, j + 1);
                assert(next.drop_last() =~= self.addresses@.subrange(0, j as int));
                assert(next.last() == self.addresses@[j as int]);
                assert(out@ =~= front + encode_addresses(next));
            }
            j = j + 1;
        }
        assert(self.addresses@.subrange(0, self.addresses@.len() as int) =~= self.addresses@);
        out
    }

    /// What the header of `bytes` says of a state that `bytes` encodes.
    proof fn lemma_header(&self, bytes: Seq<u8>, next_id: u64, n: u64, m: u64)
        requires
            self.wf(),
            self.encoding() == bytes,
            bytes.len() >= 24,
            next_id == spec_u64_from_le_bytes(bytes.subrange(0, 8)),
            n == spec_u64_from_le_bytes(bytes.subrange(8, 16)),
            m == spec_u64_from_le_bytes(bytes.subrange(16, 24)),
        ensures
            self.next_id == next_id,
            self.actors@.len() == n,
            self.addresses@.len() == m,
            bytes.len() == 24 + 194 * n + 57 * m,
    {
        lemma_auto_spec_u64_to_from_le_bytes();
        self.lemma_layout();
        assert(self.actors@.len() == self.actors.len());
        assert(self.addresses@.len() == self.addresses.len());
    }

    /// States with the same encoding are the same.
    proof fn lemma_encoding_injective(a: Layer, b: Layer)
        requires
            a.wf(),
            b.wf(),
            a.encoding() == b.encoding(),
        ensures
            a.actors@ == b.actors@,
            a.addresses@ == b.addresses@,
            a.next_id == b.next_id,
    {
        lemma_auto_spec_u64_to_from_le_bytes();
        a.lemma_layout();
        b.lemma_layout();
        let e = a.encoding();
        a.lemma_header(
            e,
            spec_u64_from_le_bytes(e.subrange(0, 8)),
            spec_u64_from_le_bytes(e.subrange(8, 16)),
            spec_u64_from_le_bytes(e.subrange(16, 24)),
        );
        b.lemma_header(
            e,
            spec_u64_from_le_bytes(e.subrange(0, 8)),
            spec_u64_from_le_bytes(e.subrange(8, 16)),
            spec_u64_from_le_bytes(e.subrange(16, 24)),
        );
        let n = a.actors@.len() as int;
        assert forall|i: int| 0 <= i < n implies a.actors@[i] == b.actors@[i] by {
            assert(chunk(e, 24, 194, i) == encode_actor(a.actors@[i]));
            assert(chunk(e, 24, 194, i) == encode_actor(b.actors@[i]));
            lemma_actor_injective(a.actors@[i], b.actors@[i]);
        }
        assert(a.actors@ =~= b.actors@);
        assert forall|j: int| 0 <= j < a.addresses@.len() implies a.addresses@[j]
            == b.addresses@[j] by {
            assert(chunk(e, 24 + 194 * n, 57, j) == encode_address(a.addresses@[j]));
            assert(chunk(e, 24 + 194 * n, 57, j) == encode_address(b.addresses@[j]));
            lemma_address_injective(a.addresses@[j], b.addresses@[j]);
        }
        assert(a.addresses@ =~= b.addresses@);
    }

    /// Reads a state back from its encoding; `None` when `bytes` is not the
    /// encoding of a consistent state.
    fn decode(bytes: &[u8]) -> (r: Option<Layer>)
        ensures
            r matches Some(l) ==> l.wf() && l.encoding() == bytes@,
            r is None ==> forall|l: Layer| #[trigger] l.wf() ==> l.encoding() != bytes@,
    {
        if bytes.len() < HEADER_LEN {
            proof {
                assert forall|l: Layer| #[trigger] l.wf() implies l.encoding() != bytes@ by {
                    l.lemma_layout();
                }
            }
            return None;
        }
        let next_id = u64_from_le_bytes(slice_subrange(bytes, 0, 8));
        let n64 = u64_from_le_bytes(slice_subrange(bytes, 8, 16));
        let m64 = u64_from_le_bytes(slice_subrange(bytes, 16, 24));
        let total: u128 = 24 + 194 * (n64 as u128) + 57 * (m64 as u128);
        if total != bytes.len() as u128 {
            proof {
                assert forall|l: Layer| #[trigger] l.wf() implies l.encoding() != bytes@ by {
                    if l.encoding() == bytes@ {
                        l.lemma_header(bytes@, next_id, n64, m64);
                    }
                }
            }
            return None;
        }
        let n: usize = n64 as usize;
        let m: usize = m64 as usize;
        proof {
            lemma_auto_spec_u64_to_from_le_bytes();
            assert forall|l: Layer| #[trigger] l.wf() && l.encoding() == bytes@ implies l.next_id
                == next_id && l.actors@.len() == n && l.addresses@.len() == m by {
                l.lemma_header(bytes@, next_id, n64, m64);
            }
        }
        let mut actors: Vec<ActorEntry> = Vec::new();
        let mut i: usize = 0;
        assert(bytes@.subrange(24, 24) =~= encode_actors(actors@));
        assert forall|l: Layer| #[trigger] l.wf() && l.encoding() == bytes@ implies
            l.actors@.subrange(0, 0) == actors@ by {
            assert(l.actors@.subrange(0, 0) =~= actors@);
        }
        while i < n
            invariant
                i <= n,
                actors@.len() == i,
                24 + 194 * n + 57 * m == bytes@.len() <= usize::MAX,
                bytes@.subrange(24, 24 + 194 * i) == encode_actors(actors@),
                actors_sorted(actors@),
                actors_hashed(actors@),
                forall|k: int|
                    0 <= k < i ==> (#[trigger] actors@[k]).id < next_id || next_id == u64::MAX,
                forall|l: Layer| #[trigger]
                    l.wf() && l.encoding() == bytes@ ==> l.next_id == next_id && l.actors@.len()
                        == n && l.addresses@.len() == m && l.actors@.subrange(0, i as int)
                        == actors@,
            decreases n - i,
        {
            let start: usize = 24 + 194 * i;
            let read = read_actor(slice_subrange(bytes, start, start + 194));
            proof {
                // For any state that `bytes` encodes, the piece read is its
                // `i`-th actor.
                assert forall|l: Layer| #[trigger] l.wf() && l.encoding() == bytes@ implies (
                read matches Some(e) && e == l.actors@[i as int]) by {
                    l.lemma_layout();
                    let piece = chunk(l.encoding(), 24, 194, i as int);
                    assert(piece =~= bytes@.subrange(start as int, start + 194));
                    lemma_actor_shape(l.actors@[i as int]);
                    lemma_actor_injective(read->0, l.actors@[i as int]);
                }
            }
            let entry = match read {
                Some(entry) => entry,
                None => {
                    return None;
                },
            };
            if i > 0 && actors[i - 1].id >= entry.id {
                proof {
                    assert forall|l: Layer| #[trigger] l.wf() implies l.encoding() != bytes@ by {
                        if l.encoding() == bytes@ {
                            assert(l.actors@.subrange(0, i as int)[i - 1] == l.actors@[i - 1]);
                            assert(l.actors@[i - 1].id < l.actors@[i as int].id);
                        }
                    }
                }
                return None;
            }
            if entry.id >= next_id && next_id != u64::MAX {
                proof {
                    assert forall|l: Layer| #[trigger] l.wf() implies l.encoding() != bytes@ by {
                        if l.encoding() == bytes@ {
                            lemma_actor_at(l.actors@, i as int);
                            assert(l.view().actors.contains_key(entry.id));
                        }
                    }
                }
                return None;
            }
            let ghost before = actors@;
            actors.push(entry);
            proof {
                assert(actors@.drop_last() =~= before);
                assert(bytes@.subrange(24, 24 + 194 * (i + 1)) =~= bytes@.subrange(
                    24,
                    24 + 194 * i,
                ) + bytes@.subrange(start as int, start + 194));
                assert forall|a: int, b: int| 0 <= a < b < actors@.len() implies (
                #[trigger] actors@[a]).id < (#[trigger] actors@[b]).id by {
                    if b == i {
                        if a < i - 1 {
                            assert(before[a].id < before[i - 1].id);
                        }
                    } else {
                        assert(before[a].id < before[b].id);
                    }
                }
                assert forall|l: Layer| #[trigger] l.wf() && l.encoding() == bytes@ implies
                    l.actors@.subrange(0, i + 1) == actors@ by {
                    assert(l.actors@.subrange(0, i + 1) =~= l.actors@.subrange(0, i as int).push(
                        l.actors@[i as int],
                    ));
                }
            }
            i = i + 1;
        }
        let base: usize = 24 + 194 * n;
        let mut addresses: Vec<AddressEntry> = Vec::new();
        let mut j: usize = 0;
        assert(bytes@.subrange(base as int, base as int) =~= encode_addresses(addresses@));
        assert forall|l: Layer| #[trigger] l.wf() && l.encoding() == bytes@ implies l.actors@
            == actors@ && l.addresses@.subrange(0, 0) == addresses@ by {
            assert(l.actors@.subrange(0, n as int) =~= l.actors@);
            assert(l.addresses@.subrange(0, 0) =~= addresses@);
        }
        while j < m
            invariant
                j <= m,
                addresses@.len() == j,
                actors@.len() == n,
                base == 24 + 194 * n,
                base + 57 * m == bytes@.len() <= usize::MAX,
                bytes@.subrange(base as int, base + 57 * j) == encode_addresses(addresses@),
                addresses_distinct(addresses@),
                addresses_ordered(addresses@),
                forall|k: int|
                    0 <= k < j ==> (#[trigger] addresses@[k]).id < next_id && !(
                    addresses@[k].addr is Id),
                forall|l: Layer| #[trigger]
                    l.wf() && l.encoding() == bytes@ ==> l.next_id == next_id && l.actors@
                        == actors@ && l.addresses@.len() == m && l.addresses@.subrange(
                        0,
                        j as int,
                    ) == addresses@,
            decreases m - j,
        {
            let start: usize = base + 57 * j;
            let read = read_address(slice_subrange(bytes, start, start + 57));
            proof {
                // For any state that `bytes` encodes, the piece read is its
                // `j`-th address.
                assert forall|l: Layer| #[trigger] l.wf() && l.encoding() == bytes@ implies (
                read matches Some(e) && e == l.addresses@[j as int]) by {
                    l.lemma_layout();
                    let piece = chunk(l.encoding(), 24 + 194 * (n as int), 57, j as int);
                    assert(piece =~= bytes@.subrange(start as int, start + 57));
                    let theirs = l.addresses@[j as int];
                    lemma_form_shape(theirs.addr);
                    lemma_address_len(theirs);
                    assert(encode_address(theirs).subrange(0, 49) =~= encode_form(theirs.addr));
                    lemma_address_injective(read->0, theirs);
                }
            }
            let entry = match read {
                Some(entry) => entry,
                None => {
                    return None;
                },
            };
            if entry.id >= next_id {
                proof {
                    assert forall|l: Layer| #[trigger] l.wf() implies l.encoding() != bytes@ by {
                        if l.encoding() == bytes@ {
                            lemma_address_at(l.addresses@, j as int);
                            assert(l.view().addresses.contains_key(entry.addr));
                        }
                    }
                }
                return None;
            }
            if j > 0 && addresses[j - 1].id >= entry.id {
                proof {
                    assert forall|l: Layer| #[trigger] l.wf() implies l.encoding() != bytes@ by {
                        if l.encoding() == bytes@ {
                            assert(l.addresses@.subrange(0, j as int)[j - 1] == l.addresses@[j
                                - 1]);
                            assert(l.addresses@[j - 1].id < l.addresses@[j as int].id);
                        }
                    }
                }
                return None;
            }
            if let Address::Id(_) = entry.addr {
                proof {
                    assert forall|l: Layer| #[trigger] l.wf() implies l.encoding() != bytes@ by {
                        if l.encoding() == bytes@ {
                            lemma_address_at(l.addresses@, j as int);
                            assert(l.view().addresses.contains_key(entry.addr));
                        }
                    }
                }
                return None;
            }
            let mut k: usize = 0;
            while k < j
                invariant
                    k <= j < m,
                    addresses@.len() == j,
                    forall|t: int| 0 <= t < k ==> (#[trigger] addresses@[t]).addr != entry.addr,
                    forall|l: Layer| #[trigger]
                        l.wf() && l.encoding() == bytes@ ==> l.addresses@.len() == m
                            && l.addresses@.subrange(0, j as int) == addresses@
                            && l.addresses@[j as int] == entry,
                decreases j - k,
            {
                if addresses[k].addr.same(&entry.addr) {
                    proof {
                        assert forall|l: Layer| #[trigger] l.wf() implies l.encoding()
                            != bytes@ by {
                            if l.encoding() == bytes@ {
                                assert(l.addresses@.subrange(0, j as int)[k as int]
                                    == l.addresses@[k as int]);
                                assert(l.addresses@[k as int].addr != l.addresses@[j as int].addr);
                            }
                        }
                    }
                    return None;
                }
                k = k + 1;
            }
            let ghost before = addresses@;
            addresses.push(entry);
            proof {
                assert(addresses@.drop_last() =~= before);
                assert(bytes@.subrange(base as int, base + 57 * (j + 1)) =~= bytes@.subrange(
                    base as int,
                    base + 57 * j,
                ) + bytes@.subrange(start as int, start + 57));
                assert forall|a: int, b: int| 0 <= a < b < addresses@.len() implies (
                #[trigger] addresses@[a]).addr != (#[trigger] addresses@[b]).addr by {
                    if b == j {
                        assert(before[a].addr != entry.addr);
                    } else {
                        assert(before[a].addr != before[b].addr);
                    }
                }
                assert forall|a: int, b: int| 0 <= a < b < addresses@.len() implies (
                #[trigger] addresses@[a]).id < (#[trigger] addresses@[b]).id by {
                    if b == j {
                        if a < j - 1 {
                            assert(before[a].id < before[j - 1].id);
                        }
                    } else {
                        assert(before[a].id < before[b].id);
                    }
                }
                assert forall|l: Layer| #[trigger] l.wf() && l.encoding() == bytes@ implies
                    l.addresses@.subrange(0, j + 1) == addresses@ by {
                    assert(l.addresses@.subrange(0, j + 1) =~= l.addresses@.subrange(
                        0,
                        j as int,
                    ).push(l.addresses@[j as int]));
                }
            }
            j = j + 1;
        }
        let l = Layer { actors, addresses, next_id };
        proof {
            lemma_auto_spec_u64_to_from_le_bytes();
            assert(spec_u64_to_le_bytes(next_id) == bytes@.subrange(0, 8));
            assert(spec_u64_to_le_bytes(n as u64) == bytes@.subrange(8, 16));
            assert(spec_u64_to_le_bytes(m as u64) == bytes@.subrange(16, 24));
            assert(l.encoding() =~= bytes@.subrange(0, 24) + bytes@.subrange(24, base as int)
                + bytes@.subrange(base as int, bytes@.len() as int));
            assert(l.encoding() =~= bytes@);
            let v = l.view();
            assert forall|id: ActorID| #[trigger] v.actors.contains_key(id) implies id < v.next_id
                || v.next_id == u64::MAX by {
                let k = actor_index(l.actors@, id);
                assert(l.actors@[k].id == id);
            }
            assert forall|a: Address| #[trigger] v.addresses.contains_key(a) implies v.addresses[a]
                < v.next_id && !(a is Id) by {
                let k = address_index(l.addresses@, a);
                assert(l.addresses@[k].addr == a);
                lemma_address_at(l.addresses@, k);
            }
        }
        Some(l)
    }
}

/// Why the state tree refused an operation.
#[derive(Clone, Copy, Debug, PartialEq, Eq, Structural)]
pub enum StateTreeError {
    /// The address already resolves to an identifier.
    AddressAlreadyRegistered,
    /// No identifier is left to assign.
    IdsExhausted,
    /// No snapshot is open.
    NoSnapshot,
}

/// Why a state tree could not be loaded.
#[derive(Clone, Copy, Debug, PartialEq, Eq)]
pub enum LoadError {
    /// The block store holds nothing under the root.
    MissingState(Cid),
    /// The block under the root is not the encoding of a state tree.
    Corrupt,
    /// The block store failed.
    Store(StoreError),
}

/// The root under which a state with the given encoding is stored: the
/// identifier of a DAG-CBOR block whose hash is the BLAKE2b-256 digest of
/// the encoding.
pub open spec fn root_of(encoding: Seq<u8>) -> Cid {
    Cid {
        codec: DAG_CBOR,
        hash: Multihash::spec_wrap(BLAKE2B_256, hash_digest(BLAKE2B_256, encoding)),
    }
}

/// Why an actor was not mutated.
#[derive(Clone, Copy, Debug, PartialEq, Eq)]
pub enum MutateError<E> {
    /// The address resolves to no actor.
    ActorNotFound,
    /// The mutation itself failed; nothing was written.
    Rejected(E),
}

/// The mapping from actor identifiers to actor records, the registry of the
/// addresses that resolve to them, and a stack of open snapshots.
#[derive(Debug)]
pub struct StateTree {
    head: Layer,
    snapshots: Vec<Layer>,
}

impl StateTree {
    /// What the tree holds now.
    pub closed spec fn state(&self) -> StateView {
        self.head.view()
    }

    /// What the tree held when each of the open snapshots was taken, the
    /// innermost last.
    pub closed spec fn snapshots(&self) -> Seq<StateView> {
        Seq::new(self.snapshots@.len(), |i: int| self.snapshots@[i].view())
    }

    /// What the tree holds: its current state and its open snapshots.
    pub open spec fn view(&self) -> TreeView {
        TreeView { state: self.state(), snapshots: self.snapshots() }
    }

    /// The tree is consistent: its invariant.
    pub closed spec fn wf(&self) -> bool {
        &&& self.head.wf()
        &&& forall|i: int| 0 <= i < self.snapshots@.len() ==> (#[trigger] self.snapshots@[i]).wf()
    }

    /// In a consistent tree no identifier in use is assigned again.
    pub proof fn lemma_ids_bounded(&self)
        requires
            self.wf(),
        ensures
            self.state().ids_bounded(),
    {
    }

    /// An empty tree.
    pub fn new() -> (r: StateTree)
        ensures
            r.wf(),
            r.state().actors == Map::<ActorID, ActorState>::empty(),
            r.state().addresses == Map::<Address, ActorID>::empty(),
            r.state().next_id == 0,
            r.snapshots() == Seq::<StateView>::empty(),
    {
        let r = StateTree {
            head: Layer { actors: Vec::new(), addresses: Vec::new(), next_id: 0 },
            snapshots: Vec::new(),
        };
        assert(r.state().actors =~= Map::<ActorID, ActorState>::empty());
        assert(r.state().addresses =~= Map::<Address, ActorID>::empty());
        assert(r.snapshots() =~= Seq::<StateView>::empty());
        r
    }

    /// Resolves an address to ID form: an address in ID form is returned as it
    /// is, another one through the registry.
    pub fn lookup_id(&self, addr: &Address) -> (r: Option<Address>)
        requires
            self.wf(),
        ensures
            r == (match self.state().resolve(*addr) {
                Some(id) => Some(Address::Id(id)),
                None => None::<Address>,
            }),
    {
        match self.head.resolve(addr) {
            Some(id) => Some(Address::Id(id)),
            None => None,
        }
    }

    /// The actor that an address resolves to, if there is one.
    pub fn get_actor(&self, addr: &Address) -> (r: Option<ActorState>)
        requires
            self.wf(),
        ensures
            r == self.state().actor(*addr),
    {
        match self.head.resolve(addr) {
            Some(id) => self.head.get(id),
            None => None,
        }
    }

    /// Assigns the next identifier to an address that does not resolve yet,
    /// and returns it in ID form.
    pub fn register_new_address(&mut self, addr: &Address) -> (r: Result<Address, StateTreeError>)
        requires
            old(self).wf(),
        ensures
            final(self).wf(),
            final(self).snapshots() == old(self).snapshots(),
            final(self)@ == old(self)@.mutate(seq![Mutation::Register(*addr)]),
            match r {
                Ok(id_addr) => {
                    &&& old(self).state().resolve(*addr) is None
                    &&& old(self).state().next_id < u64::MAX
                    &&& id_addr == Address::Id(old(self).state().next_id)
                    &&& final(self).state() == old(self).state().with_address(*addr)
                },
                Err(StateTreeError::AddressAlreadyRegistered) => {
                    &&& old(self).state().resolve(*addr) is Some
                    &&& final(self).state() == old(self).state()
                },
                Err(StateTreeError::IdsExhausted) => {
                    &&& old(self).state().resolve(*addr) is None
                    &&& old(self).state().next_id == u64::MAX
                    &&& final(self).state() == old(self).state()
                },
                Err(StateTreeError::NoSnapshot) => false,
            },
    {
        proof {
            lemma_apply_one(self.state(), Mutation::Register(*addr));
        }
        if self.head.resolve(addr).is_some() {
            return Err(StateTreeError::AddressAlreadyRegistered);
        }
        if self.head.next_id == u64::MAX {
            return Err(StateTreeError::IdsExhausted);
        }
        let id = self.head.register(addr);
        assert(final(self).snapshots() =~= old(self).snapshots());
        Ok(Address::Id(id))
    }

    /// Stores an actor under an identifier, whether or not one was there.
    pub fn set_actor(&mut self, id: ActorID, state: ActorState)
        requires
            old(self).wf(),
        ensures
            final(self).wf(),
            final(self).snapshots() == old(self).snapshots(),
            final(self).state() == old(self).state().with_actor(id, state),
            final(self)@ == old(self)@.mutate(seq![Mutation::SetActor(id, state)]),
    {
        self.head.set(id, state);
        assert(final(self).snapshots() =~= old(self).snapshots());
        proof {
            lemma_apply_one(old(self).state(), Mutation::SetActor(id, state));
        }
    }

    /// Applies `f` to the actor that `addr` resolves to and stores what it
    /// returns; when `f` fails nothing is written.
    pub fn mutate_actor<E, F: FnOnce(ActorState) -> Result<ActorState, E>>(
        &mut self,
        addr: &Address,
        f: F,
    ) -> (r: Result<(), MutateError<E>>)
        requires
            old(self).wf(),
            old(self).state().actor(*addr) matches Some(a) ==> f.requires((a,)),
        ensures
            final(self).wf(),
            final(self).snapshots() == old(self).snapshots(),
            match old(self).state().actor(*addr) {
                None => {
                    &&& r == Err::<(), MutateError<E>>(MutateError::ActorNotFound)
                    &&& final(self).state() == old(self).state()
                },
                Some(a) => match r {
                    Ok(()) => exists|b: ActorState|
                        f.ensures((a,), Ok(b)) && final(self).state() == old(self).state().with_actor(
                            old(self).state().resolve(*addr)->0,
                            b,
                        ),
                    Err(MutateError::Rejected(e)) => f.ensures((a,), Err(e)) && final(self).state()
                        == old(self).state(),
                    Err(MutateError::ActorNotFound) => false,
                },
            },
    {
        let id = match self.head.resolve(addr) {
            Some(id) => id,
            None => {
                return Err(MutateError::ActorNotFound);
            },
        };
        let actor = match self.head.get(id) {
            Some(actor) => actor,
            None => {
                return Err(MutateError::ActorNotFound);
            },
        };
        match f(actor) {
            Ok(changed) => {
                self.head.set(id, changed);
                assert(final(self).snapshots() =~= old(self).snapshots());
                Ok(())
            },
            Err(e) => Err(MutateError::Rejected(e)),
        }
    }

    /// Opens a snapshot of the current state.
    pub fn snapshot(&mut self)
        requires
            old(self).wf(),
        ensures
            final(self).wf(),
            final(self).state() == old(self).state(),
            final(self).snapshots() == old(self).snapshots().push(old(self).state()),
            final(self)@ == old(self)@.snapshot(),
    {
        let copy = self.head.duplicate();
        assert(copy.view() == self.head.view());
        self.snapshots.push(copy);
        assert(final(self).snapshots() =~= old(self).snapshots().push(old(self).state()));
    }

    /// Closes the innermost snapshot and brings back the state that it holds.
    pub fn revert_to_snapshot(&mut self) -> (r: Result<(), StateTreeError>)
        requires
            old(self).wf(),
        ensures
            final(self).wf(),
            r is Ok <==> old(self).snapshots().len() > 0,
            r is Ok ==> {
                &&& final(self).state() == old(self).snapshots().last()
                &&& final(self).snapshots() == old(self).snapshots().drop_last()
            },
            r is Ok ==> final(self)@ == old(self)@.revert(),
            r is Err ==> {
                &&& r == Err::<(), StateTreeError>(StateTreeError::NoSnapshot)
                &&& final(self).state() == old(self).state()
                &&& final(self).snapshots() == old(self).snapshots()
            },
    {
        match self.snapshots.pop() {
            Some(layer) => {
                self.head = layer;
                assert(final(self).snapshots() =~= old(self).snapshots().drop_last());
                Ok(())
            },
            None => {
                assert(final(self).snapshots() =~= old(self).snapshots());
                Err(StateTreeError::NoSnapshot)
            },
        }
    }

    /// Closes the innermost snapshot and keeps the current state.
    pub fn clear_snapshot(&mut self) -> (r: Result<(), StateTreeError>)
        requires
            old(self).wf(),
        ensures
            final(self).wf(),
            final(self).state() == old(self).state(),
            r is Ok <==> old(self).snapshots().len() > 0,
            r is Ok ==> final(self).snapshots() == old(self).snapshots().drop_last(),
            r is Ok ==> final(self)@ == old(self)@.clear(),
            r is Err ==> {
                &&& r == Err::<(), StateTreeError>(StateTreeError::NoSnapshot)
                &&& final(self).snapshots() == old(self).snapshots()
            },
    {
        match self.snapshots.pop() {
            Some(_) => {
                assert(final(self).snapshots() =~= old(self).snapshots().drop_last());
                Ok(())
            },
            None => {
                assert(final(self).snapshots() =~= old(self).snapshots());
                Err(StateTreeError::NoSnapshot)
            },
        }
    }

    /// Closes every open snapshot and brings back the state that the
    /// outermost one holds.
    pub fn revert_all(&mut self)
        requires
            old(self).wf(),
        ensures
            final(self).wf(),
            final(self).snapshots() == Seq::<StateView>::empty(),
            final(self).state() == if old(self).snapshots().len() > 0 {
                old(self).snapshots()[0]
            } else {
                old(self).state()
            },
    {
        while self.snapshots.len() > 0
            invariant
                self.wf(),
                self.snapshots().len() <= old(self).snapshots().len(),
                self.snapshots() == old(self).snapshots().subrange(
                    0,
                    self.snapshots().len() as int,
                ),
                self.snapshots().len() == old(self).snapshots().len() ==> self.state()
                    == old(self).state(),
                self.snapshots().len() < old(self).snapshots().len() ==> self.state()
                    == old(self).snapshots()[self.snapshots().len() as int],
            decreases self.snapshots@.len(),
        {
            let ghost before = self.snapshots();
            let _ = self.revert_to_snapshot();
            assert(self.snapshots() =~= old(self).snapshots().subrange(
                0,
                self.snapshots().len() as int,
            ));
        }
        assert(self.snapshots() =~= Seq::<StateView>::empty());
    }

    /// The bytes that stand for the current state in the block store.
    pub closed spec fn encoding(&self) -> Seq<u8> {
        self.head.encoding()
    }

    /// Consistent trees in the same state have the same encoding, and so the
    /// same root.
    pub proof fn lemma_encoding_canonical(&self, other: &StateTree)
        requires
            self.wf(),
            other.wf(),
            self.state() == other.state(),
        ensures
            self.encoding() == other.encoding(),
    {
        lemma_actors_unique(self.head.actors@, other.head.actors@);
        lemma_addresses_unique(self.head.addresses@, other.head.addresses@);
    }

    /// Consistent trees with the same encoding are in the same state.
    pub proof fn lemma_encoding_injective(&self, other: &StateTree)
        requires
            self.wf(),
            other.wf(),
            self.encoding() == other.encoding(),
        ensures
            self.state() == other.state(),
    {
        Layer::lemma_encoding_injective(self.head, other.head);
    }

    /// Persists the current state to the block store and returns its root.
    /// A store that fails keeps what it held.
    pub fn flush<B: Blockstore>(&mut self, store: &mut B) -> (r: Result<Cid, StoreError>)
        ensures
            *final(self) == *old(self),
            match r {
                Ok(root) => {
                    &&& root == root_of(old(self).encoding())
                    &&& root.wf()
                    &&& final(store).blocks() == old(store).blocks().insert(
                        root,
                        old(self).encoding(),
                    )
                },
                Err(_) => final(store).blocks() == old(store).blocks(),
            },
    {
        let (root, bytes) = self.root_block();
        match store.put(&root, bytes.as_slice()) {
            Ok(()) => Ok(root),
            Err(e) => Err(e),
        }
    }

    /// Loads the state that is stored under `root`, without open snapshots.
    pub fn new_from_root<B: Blockstore>(store: &B, root: &Cid) -> (r: Result<StateTree, LoadError>)
        ensures
            match r {
                Ok(tree) => {
                    &&& store.blocks().contains_key(*root)
                    &&& tree.wf()
                    &&& tree.encoding() == store.blocks()[*root]
                    &&& tree.snapshots() == Seq::<StateView>::empty()
                },
                Err(LoadError::MissingState(k)) => k == *root && !store.blocks().contains_key(
                    *root,
                ),
                Err(LoadError::Corrupt) => {
                    &&& store.blocks().contains_key(*root)
                    &&& forall|tree: StateTree| #[trigger]
                        tree.wf() ==> tree.encoding() != store.blocks()[*root]
                },
                Err(LoadError::Store(_)) => true,
            },
    {
        let bytes = match store.get(root) {
            Ok(Some(bytes)) => bytes,
            Ok(None) => {
                return Err(LoadError::MissingState(*root));
            },
            Err(e) => {
                return Err(LoadError::Store(e));
            },
        };
        match Layer::decode(bytes.as_slice()) {
            Some(head) => {
                let tree = StateTree { head, snapshots: Vec::new() };
                assert(tree.snapshots() =~= Seq::<StateView>::empty());
                Ok(tree)
            },
            None => {
                assert forall|tree: StateTree| #[trigger] tree.wf() implies tree.encoding()
                    != store.blocks()[*root] by {
                    assert(tree.head.wf());
                }
                Err(LoadError::Corrupt)
            },
        }
    }

    /// The root of the current state and the block that stands for it: what
    /// [`StateTree::flush`] hands to the block store. Nothing is stored.
    pub fn root_block(&self) -> (r: (Cid, Vec<u8>))
        ensures
            r.0 == root_of(self.encoding()),
            r.0.wf(),
            r.1@ == self.encoding(),
    {
        let bytes = self.head.encode();
        let hash = Multihash::digest_of(BLAKE2B_256, bytes.as_slice()).unwrap();
        proof {
            hash.lemma_is_wrap();
        }
        (Cid::new_v1(DAG_CBOR, hash), bytes)
    }

    /// Number of open snapshots.
    pub fn snapshot_depth(&self) -> (r: usize)
        ensures
            r == self.snapshots().len(),
    {
        self.snapshots.len()
    }
}

} // verus!
