//! Actor addresses.

use crate::bytes::append;
use vstd::prelude::*;

verus! {

/// Numeric identifier of an actor: the only address form that the state tree
/// is keyed by.
pub type ActorID = u64;

/// Length of the payload of a secp256k1 or an actor address.
pub const PAYLOAD_HASH_LEN: usize = 20;

/// Length of a BLS public key, the payload of a BLS address.
pub const BLS_PUB_LEN: usize = 48;

/// The form of an address.
#[derive(Clone, Copy, Debug, PartialEq, Eq, Structural, Hash)]
pub enum Protocol {
    /// Numeric identifier.
    ID,
    /// Hash of a secp256k1 public key: signable.
    Secp256k1,
    /// Hash derived at actor creation.
    Actor,
    /// BLS public key: signable.
    BLS,
}

/// A variable-form actor identifier.
#[derive(Clone, Copy, Debug, PartialEq, Eq, Hash)]
pub enum Address {
    Id(ActorID),
    Secp256k1([u8; 20]),
    Actor([u8; 20]),
    Bls([u8; 48]),
}

/// Whether two byte arrays hold the same bytes.
pub fn bytes_same<const N: usize>(a: &[u8; N], b: &[u8; N]) -> (r: bool)
    ensures
        r == (*a == *b),
{
    let mut i: usize = 0;
    while i < N
        invariant
            i <= N,
            forall|j: int| 0 <= j < i ==> a[j] == b[j],
        decreases N - i,
    {
        if a[i] != b[i] {
            return false;
        }
        i = i + 1;
    }
    assert(a@ =~= b@);
    assert(*a == *b) by {
        broadcast use vstd::array::group_array_axioms;

    }
    true
}

impl Address {
    pub open spec fn spec_protocol(&self) -> Protocol {
        match *self {
            Address::Id(_) => Protocol::ID,
            Address::Secp256k1(_) => Protocol::Secp256k1,
            Address::Actor(_) => Protocol::Actor,
            Address::Bls(_) => Protocol::BLS,
        }
    }

    /// Whether the address is one of the two key forms that an account can be
    /// created for on first use.
    pub open spec fn is_signable(&self) -> bool {
        self is Secp256k1 || self is Bls
    }

    /// The reserved BLS address whose key is all zero.
    pub open spec fn spec_is_bls_zero_address(&self) -> bool {
        match *self {
            Address::Bls(key) => forall|i: int| 0 <= i < 48 ==> key[i] == 0,
            _ => false,
        }
    }

    pub fn new_id(id: ActorID) -> (r: Address)
        ensures
            r == Address::Id(id),
    {
        Address::Id(id)
    }

    #[verifier::when_used_as_spec(spec_protocol)]
    pub fn protocol(&self) -> (r: Protocol)
        ensures
            r == self.spec_protocol(),
    {
        match self {
            Address::Id(_) => Protocol::ID,
            Address::Secp256k1(_) => Protocol::Secp256k1,
            Address::Actor(_) => Protocol::Actor,
            Address::Bls(_) => Protocol::BLS,
        }
    }

    /// The numeric identifier of an address in ID form.
    pub fn id(&self) -> (r: Option<ActorID>)
        ensures
            r == (match *self {
                Address::Id(id) => Some(id),
                _ => None::<ActorID>,
            }),
    {
        match self {
            Address::Id(id) => Some(*id),
            _ => None,
        }
    }

    #[verifier::when_used_as_spec(spec_is_bls_zero_address)]
    pub fn is_bls_zero_address(&self) -> (r: bool)
        ensures
            r == self.spec_is_bls_zero_address(),
    {
        match self {
            Address::Bls(key) => {
                let mut i: usize = 0;
                while i < 48
                    invariant
                        i <= 48,
                        *self == Address::Bls(*key),
                        forall|j: int| 0 <= j < i ==> key[j] == 0,
                    decreases 48 - i,
                {
                    if key[i] != 0 {
                        assert(self->Bls_0[i as int] != 0);
                        assert(!(forall|j: int| 0 <= j < 48 ==> self->Bls_0[j] == 0));
                        assert(!self.spec_is_bls_zero_address());
                        return false;
                    }
                    i = i + 1;
                }
                true
            },
            _ => false,
        }
    }

    /// Whether two addresses are the same value.
    pub fn same(&self, other: &Address) -> (r: bool)
        ensures
            r == (*self == *other),
    {
        match (self, other) {
            (Address::Id(a), Address::Id(b)) => *a == *b,
            (Address::Secp256k1(a), Address::Secp256k1(b)) => bytes_same(a, b),
            (Address::Actor(a), Address::Actor(b)) => bytes_same(a, b),
            (Address::Bls(a), Address::Bls(b)) => bytes_same(a, b),
            _ => false,
        }
    }
}

/// The digits of `n` in base 128, least significant first; every digit but
/// the last has the top bit set.
pub open spec fn varint(n: nat) -> Seq<u8>
    decreases n,
{
    if n < 128 {
        seq![n as u8]
    } else {
        seq![(n % 128 + 128) as u8] + varint(n / 128)
    }
}

/// The byte that stands for a protocol.
pub open spec fn protocol_byte(p: Protocol) -> u8 {
    match p {
        Protocol::ID => 0,
        Protocol::Secp256k1 => 1,
        Protocol::Actor => 2,
        Protocol::BLS => 3,
    }
}

impl Address {
    /// What follows the protocol byte in the byte form of the address.
    pub open spec fn payload_bytes(&self) -> Seq<u8> {
        match *self {
            Address::Id(id) => varint(id as nat),
            Address::Secp256k1(hash) => hash@,
            Address::Actor(hash) => hash@,
            Address::Bls(key) => key@,
        }
    }

    /// The byte form of the address: the protocol byte, then the payload.
    pub open spec fn spec_to_bytes(&self) -> Seq<u8> {
        seq![protocol_byte(self.spec_protocol())] + self.payload_bytes()
    }

    /// The byte form of the address.
    pub fn to_bytes(&self) -> (r: Vec<u8>)
        ensures
            r@ == self.spec_to_bytes(),
            r@.len() <= 49,
    {
        let mut out: Vec<u8> = Vec::new();
        match self {
            Address::Id(id) => {
                out.push(0u8);
                let mut n: u64 = *id;
                let ghost mut digits: nat = 1;
                assert(pow128(0) == 1);
                assert(n as nat * pow128(0) == n) by (nonlinear_arith)
                    requires
                        pow128(0) == 1,
                ;
                while n >= 128
                    invariant
                        1 <= out@.len() == digits <= 10,
                        n as nat * pow128((digits - 1) as nat) <= u64::MAX,
                        out@ + varint(n as nat) == seq![0u8] + varint(*id as nat),
                    decreases n,
                {
                    let ghost before = out@;
                    out.push((n % 128 + 128) as u8);
                    proof {
                        assert(before + varint(n as nat) =~= out@ + varint((n / 128) as nat));
                        lemma_pow128_step(n as nat, digits);
                        digits = digits + 1;
                    }
                    n = n / 128;
                }
                out.push(n as u8);
                assert(out@ =~= seq![0u8] + varint(*id as nat));
            },
            Address::Secp256k1(hash) => {
                out.push(1u8);
                append(&mut out, hash.as_slice());
                assert(out@ =~= self.spec_to_bytes());
            },
            Address::Actor(hash) => {
                out.push(2u8);
                append(&mut out, hash.as_slice());
                assert(out@ =~= self.spec_to_bytes());
            },
            Address::Bls(key) => {
                out.push(3u8);
                append(&mut out, key.as_slice());
                assert(out@ =~= self.spec_to_bytes());
            },
        }
        out
    }
}

/// 128 to the power of `k`.
pub open spec fn pow128(k: nat) -> nat
    decreases k,
{
    if k == 0 {
        1
    } else {
        128 * pow128((k - 1) as nat)
    }
}

proof fn lemma_pow128_step(n: nat, digits: nat)
    requires
        n >= 128,
        1 <= digits,
        n * pow128((digits - 1) as nat) <= u64::MAX,
    ensures
        (n / 128) * pow128(digits) <= u64::MAX,
        digits <= 9,
{
    let p = pow128((digits - 1) as nat);
    assert(pow128(digits) == 128 * p);
    assert((n / 128) * (128 * p) <= n * p) by (nonlinear_arith)
        requires
            0 <= p,
            0 <= n,
    ;
    if digits >= 10 {
        lemma_pow128_grows(9, (digits - 1) as nat);
        assert(pow128(9) == 128 * pow128(8));
        assert(pow128(8) == 128 * pow128(7));
        assert(pow128(7) == 128 * pow128(6));
        assert(pow128(6) == 128 * pow128(5));
        assert(pow128(5) == 128 * pow128(4));
        assert(pow128(4) == 128 * pow128(3));
        assert(pow128(3) == 128 * pow128(2));
        assert(pow128(2) == 128 * pow128(1));
        assert(pow128(1) == 128 * pow128(0));
        assert(128 * p <= n * p) by (nonlinear_arith)
            requires
                n >= 128,
                0 <= p,
        ;
    }
}

proof fn lemma_pow128_grows(a: nat, b: nat)
    requires
        a <= b,
    ensures
        pow128(a) <= pow128(b),
    decreases b,
{
    if a < b {
        lemma_pow128_grows(a, (b - 1) as nat);
    }
}

} // verus!
