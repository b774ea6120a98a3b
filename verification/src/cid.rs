//! Content identifiers: a codec tag together with a self-describing hash.

use crate::bytes::append;
use vstd::bytes::{
    lemma_auto_spec_u64_to_from_le_bytes, spec_u64_to_le_bytes, u64_from_le_bytes,
    u64_to_le_bytes,
};
use vstd::prelude::*;
use vstd::slice::slice_subrange;

verus! {

/// Codec tag of raw binary blocks.
pub const IPLD_RAW: u64 = 0x55;

/// Codec tag of DAG-CBOR blocks.
pub const DAG_CBOR: u64 = 0x71;

/// Multihash code of the identity function: the digest is the input itself.
pub const IDENTITY_HASH: u64 = 0x00;

/// Multihash code of SHA2-256.
pub const SHA2_256: u64 = 0x12;

/// Multihash code of SHA2-512.
pub const SHA2_512: u64 = 0x13;

/// Multihash code of BLAKE2b-256.
pub const BLAKE2B_256: u64 = 0xb220;

/// Multihash code of BLAKE2b-512.
pub const BLAKE2B_512: u64 = 0xb240;

/// Largest digest, in bytes, that a [`Multihash`] can carry.
pub const MAX_DIGEST_SIZE: usize = 64;

/// Length of the fixed-width encoding of a [`Multihash`].
pub const MULTIHASH_ENCODED_LEN: usize = 73;

/// Length of the fixed-width encoding of a [`Cid`].
pub const CID_ENCODED_LEN: usize = 81;

/// The digest of `data` under the hash function with multihash code `code`,
/// as the code table of the `multihash-codetable` crate computes it.
pub uninterp spec fn hash_digest(code: u64, data: Seq<u8>) -> Seq<u8>;

/// The hash functions that the library hashes with.
pub open spec fn hash_supported(code: u64) -> bool {
    code == SHA2_256 || code == SHA2_512 || code == BLAKE2B_256 || code == BLAKE2B_512
}

/// The native digest size, in bytes, of a supported hash function.
pub open spec fn hash_digest_len(code: u64) -> nat {
    if code == SHA2_256 || code == BLAKE2B_256 {
        32
    } else {
        64
    }
}

/// Calls `multihash_codetable::Code::try_from` and, for a code that the table
/// knows, `MultihashDigest::digest` on it.
///
/// Trusted: for each of the four codes of [`hash_supported`], which the table
/// holds whenever it is built with the `sha2` and `blake2b` features, the
/// result holds the digest of `data`, which has the native size of the
/// function. Nothing is said of another code: the table may hold more.
#[verifier::external_body]
fn code_table_digest(code: u64, data: &[u8]) -> (r: Option<Vec<u8>>)
    ensures
        r is Some || !hash_supported(code),
        r matches Some(d) ==> (hash_supported(code) ==> d@ == hash_digest(code, data@) && d@.len()
            == hash_digest_len(code)),
{
    match multihash_codetable::Code::try_from(code) {
        Ok(table_code) => Some(
            multihash_codetable::MultihashDigest::digest(&table_code, data).digest().to_vec(),
        ),
        Err(_) => None,
    }
}

/// The array that holds the first `n` of `bytes` and zeros after them.
spec fn padded(bytes: Seq<u8>, n: nat) -> [u8; 64]
    decreases n,
{
    if n == 0 {
        vstd::array::spec_array_fill_for_copy_type::<u8, 64>(0u8)
    } else {
        vstd::array::spec_array_update(padded(bytes, (n - 1) as nat), n - 1, bytes[n - 1])
    }
}

proof fn lemma_padded(bytes: Seq<u8>, n: nat)
    requires
        n <= bytes.len(),
        n <= 64,
    ensures
        forall|i: int| 0 <= i < n ==> padded(bytes, n)[i] == bytes[i],
        forall|i: int| n <= i < 64 ==> padded(bytes, n)[i] == 0,
    decreases n,
{
    broadcast use vstd::array::group_array_axioms;

    if n == 0 {
        vstd::array::axiom_spec_array_fill_for_copy_type::<u8, 64>(0u8);
    } else {
        lemma_padded(bytes, (n - 1) as nat);
        vstd::array::axiom_spec_array_update(padded(bytes, (n - 1) as nat), n - 1, bytes[n - 1]);
    }
}

/// A hash function code together with a digest of at most
/// [`MAX_DIGEST_SIZE`] bytes.
#[derive(Clone, Copy, Debug, PartialEq, Eq, Hash)]
pub struct Multihash {
    code: u64,
    size: u8,
    digest: [u8; 64],
}

impl Multihash {
    /// The digest occupies the first `size` bytes; the rest is zero, so that
    /// two multihashes with equal code and digest are equal as values.
    #[verifier::type_invariant]
    pub closed spec fn inv(&self) -> bool {
        &&& self.size <= 64
        &&& forall|i: int| self.size <= i < 64 ==> self.digest[i] == 0
    }

    /// The digest bytes.
    pub closed spec fn view(&self) -> Seq<u8> {
        self.digest@.subrange(0, self.size as int)
    }

    pub closed spec fn spec_code(&self) -> u64 {
        self.code
    }

    pub closed spec fn spec_size(&self) -> u8 {
        self.size
    }

    /// Two well-formed multihashes with the same code and digest are the same
    /// value.
    pub proof fn lemma_equal_by_parts(a: Multihash, b: Multihash)
        requires
            a.inv(),
            b.inv(),
            a.spec_code() == b.spec_code(),
            a@ == b@,
        ensures
            a == b,
    {
        assert(a@.len() == a.size);
        assert(b@.len() == b.size);
        assert forall|i: int| 0 <= i < 64 implies a.digest[i] == b.digest[i] by {
            if i < a.size {
                assert(a@[i] == a.digest[i]);
                assert(b@[i] == b.digest[i]);
            }
        }
        assert(a.digest@ =~= b.digest@);
        assert(a.digest == b.digest);
        assert(a.size == b.size);
    }

    /// The well-formed multihash with the given code and digest; meaningful
    /// for a digest of at most [`MAX_DIGEST_SIZE`] bytes.
    pub closed spec fn spec_wrap(code: u64, bytes: Seq<u8>) -> Multihash {
        choose|m: Multihash| m.inv() && m.spec_code() == code && m@ == bytes
    }

    /// The multihash that wraps a code and a digest of at most
    /// [`MAX_DIGEST_SIZE`] bytes is well formed and holds that code and that
    /// digest.
    pub proof fn lemma_wrap(code: u64, bytes: Seq<u8>)
        requires
            bytes.len() <= MAX_DIGEST_SIZE,
        ensures
            Self::spec_wrap(code, bytes).inv(),
            Self::spec_wrap(code, bytes).spec_code() == code,
            Self::spec_wrap(code, bytes)@ == bytes,
    {
        lemma_padded(bytes, bytes.len());
        let witness = Multihash {
            code,
            size: bytes.len() as u8,
            digest: padded(bytes, bytes.len()),
        };
        assert(witness@ =~= bytes);
        assert(witness.inv() && witness.spec_code() == code && witness@ == bytes);
    }

    /// Multihashes that wrap different codes or different digests differ.
    pub proof fn lemma_wrap_injective(code: u64, bytes: Seq<u8>, other_code: u64, other: Seq<u8>)
        requires
            bytes.len() <= MAX_DIGEST_SIZE,
            other.len() <= MAX_DIGEST_SIZE,
            Self::spec_wrap(code, bytes) == Self::spec_wrap(other_code, other),
        ensures
            code == other_code,
            bytes == other,
    {
        Self::lemma_wrap(code, bytes);
        Self::lemma_wrap(other_code, other);
    }

    /// A well-formed multihash is the one that wraps its code and digest.
    pub proof fn lemma_is_wrap(self)
        requires
            self.inv(),
        ensures
            self == Self::spec_wrap(self.spec_code(), self@),
    {
        let chosen = Self::spec_wrap(self.spec_code(), self@);
        assert(chosen.inv() && chosen.spec_code() == self.spec_code() && chosen@ == self@);
        Self::lemma_equal_by_parts(self, chosen);
    }

    /// Wraps a digest; fails when it is longer than [`MAX_DIGEST_SIZE`].
    pub fn wrap(code: u64, input: &[u8]) -> (r: Option<Multihash>)
        ensures
            r is Some <==> input@.len() <= MAX_DIGEST_SIZE,
            r matches Some(m) ==> m.inv() && m.spec_code() == code && m@ == input@ && m
                == Self::spec_wrap(code, input@),
    {
        if input.len() > MAX_DIGEST_SIZE {
            return None;
        }
        let mut digest = [0u8; 64];
        let mut i: usize = 0;
        while i < input.len()
            invariant
                i <= input@.len() <= 64,
                forall|j: int| 0 <= j < i ==> digest[j] == input@[j],
                forall|j: int| i <= j < 64 ==> digest[j] == 0,
            decreases input@.len() - i,
        {
            digest[i] = input[i];
            i = i + 1;
        }
        let m = Multihash { code, size: input.len() as u8, digest };
        assert(m@ =~= input@);
        proof {
            m.lemma_is_wrap();
        }
        Some(m)
    }

    /// Hashes `data` with the function `code`; `None` when the function is
    /// none of those of [`hash_supported`].
    pub fn digest_of(code: u64, data: &[u8]) -> (r: Option<Multihash>)
        ensures
            r is Some <==> hash_supported(code),
            r matches Some(m) ==> m.inv() && m.spec_code() == code && m@ == hash_digest(
                code,
                data@,
            ) && m@.len() == hash_digest_len(code),
    {
        if !(code == SHA2_256 || code == SHA2_512 || code == BLAKE2B_256 || code == BLAKE2B_512) {
            return None;
        }
        match code_table_digest(code, data) {
            Some(bytes) => Multihash::wrap(code, bytes.as_slice()),
            None => None,
        }
    }

    #[verifier::when_used_as_spec(spec_code)]
    pub fn code(&self) -> (r: u64)
        ensures
            r == self.spec_code(),
    {
        self.code
    }

    #[verifier::when_used_as_spec(spec_size)]
    pub fn size(&self) -> (r: u8)
        ensures
            r == self.spec_size(),
            r == self@.len(),
            self.inv(),
    {
        proof {
            use_type_invariant(self);
        }
        self.size
    }

    /// A copy of the digest bytes.
    pub fn digest(&self) -> (r: Vec<u8>)
        ensures
            r@ == self@,
    {
        proof {
            use_type_invariant(self);
        }
        let mut out: Vec<u8> = Vec::new();
        let mut i: usize = 0;
        while i < self.size as usize
            invariant
                i <= self.size <= 64,
                out@ == self.digest@.subrange(0, i as int),
            decreases self.size - i,
        {
            out.push(self.digest[i]);
            assert(out@ =~= self.digest@.subrange(0, i + 1));
            i = i + 1;
        }
        out
    }

    /// Keeps the first `size` bytes of the digest; a `size` beyond the current
    /// one changes nothing.
    pub fn truncate(&self, size: u8) -> (r: Multihash)
        ensures
            r.inv(),
            r.spec_code() == self.spec_code(),
            size as int >= self@.len() ==> r == *self,
            (size as int) < self@.len() ==> r@ == self@.subrange(0, size as int),
    {
        proof {
            use_type_invariant(self);
        }
        if size >= self.size {
            return *self;
        }
        let mut digest = self.digest;
        let mut i: usize = size as usize;
        while i < 64
            invariant
                size <= i <= 64,
                forall|j: int| 0 <= j < size ==> digest[j] == self.digest[j],
                forall|j: int| size <= j < i ==> digest[j] == 0,
            decreases 64 - i,
        {
            digest[i] = 0;
            i = i + 1;
        }
        let r = Multihash { code: self.code, size, digest };
        assert(r@ =~= self@.subrange(0, size as int));
        r
    }

    /// The fixed-width encoding: the code in little-endian order, the size,
    /// and the 64 bytes that hold the digest.
    pub closed spec fn spec_encoding(&self) -> Seq<u8> {
        spec_u64_to_le_bytes(self.code) + seq![self.size] + self.digest@
    }

    /// Whether `bytes` has the shape of an encoding: the right length, a size
    /// of at most 64, and zeros after the digest.
    pub open spec fn encoded(bytes: Seq<u8>) -> bool {
        &&& bytes.len() == MULTIHASH_ENCODED_LEN
        &&& bytes[8] <= 64
        &&& forall|j: int| 9 + bytes[8] <= j < 73 ==> bytes[j] == 0
    }

    /// The encoding of a well-formed multihash has the shape of one.
    pub proof fn lemma_encoding_shape(self)
        requires
            self.inv(),
        ensures
            Self::encoded(self.spec_encoding()),
    {
        lemma_auto_spec_u64_to_from_le_bytes();
        let e = self.spec_encoding();
        assert(e.len() == 73);
        assert(e[8] == self.size);
        assert forall|j: int| 9 + e[8] <= j < 73 implies e[j] == 0 by {
            assert(e[j] == self.digest@[j - 9]);
        }
    }

    /// Multihashes with the same encoding are the same.
    pub proof fn lemma_encoding_injective(a: Multihash, b: Multihash)
        requires
            a.spec_encoding() == b.spec_encoding(),
        ensures
            a == b,
    {
        lemma_auto_spec_u64_to_from_le_bytes();
        let ea = a.spec_encoding();
        let eb = b.spec_encoding();
        assert(ea.subrange(0, 8) =~= spec_u64_to_le_bytes(a.code));
        assert(eb.subrange(0, 8) =~= spec_u64_to_le_bytes(b.code));
        assert(a.code == b.code);
        assert(ea[8] == a.size && eb[8] == b.size);
        assert forall|i: int| 0 <= i < 64 implies a.digest[i] == b.digest[i] by {
            assert(ea[9 + i] == a.digest@[i]);
            assert(eb[9 + i] == b.digest@[i]);
        }
        assert(a.digest@ =~= b.digest@);
        assert(a.digest == b.digest);
    }

    /// Appends the encoding to `out`.
    pub fn encode(&self, out: &mut Vec<u8>)
        ensures
            final(out)@ == old(out)@ + self.spec_encoding(),
    {
        let code = u64_to_le_bytes(self.code);
        append(out, code.as_slice());
        out.push(self.size);
        append(out, self.digest.as_slice());
        assert(out@ =~= old(out)@ + self.spec_encoding());
    }

    /// Reads a multihash back from its encoding; `None` when `bytes` has not
    /// the shape of one.
    pub fn decode(bytes: &[u8]) -> (r: Option<Multihash>)
        ensures
            r is Some <==> Self::encoded(bytes@),
            r matches Some(m) ==> m.inv() && m.spec_encoding() == bytes@,
    {
        if bytes.len() != MULTIHASH_ENCODED_LEN {
            return None;
        }
        let code = u64_from_le_bytes(slice_subrange(bytes, 0, 8));
        let size = bytes[8];
        if size > 64 {
            return None;
        }
        let mut digest = [0u8; 64];
        let mut i: usize = 0;
        while i < 64
            invariant
                i <= 64,
                size <= 64,
                bytes@.len() == 73,
                size == bytes@[8],
                forall|j: int| 0 <= j < i ==> digest[j] == bytes@[9 + j],
                forall|j: int| 9 + size <= j < 9 + i ==> bytes@[j] == 0,
            decreases 64 - i,
        {
            let b = bytes[9 + i];
            if i >= size as usize && b != 0 {
                return None;
            }
            digest[i] = b;
            i = i + 1;
        }
        let m = Multihash { code, size, digest };
        proof {
            lemma_auto_spec_u64_to_from_le_bytes();
            assert(spec_u64_to_le_bytes(code) == bytes@.subrange(0, 8));
            assert(m.spec_encoding() =~= bytes@);
        }
        Some(m)
    }

    /// Whether two multihashes are the same value.
    pub fn same(&self, other: &Multihash) -> (r: bool)
        ensures
            r == (*self == *other),
            r == (self.spec_code() == other.spec_code() && self@ == other@),
    {
        proof {
            use_type_invariant(self);
            use_type_invariant(other);
            if self.spec_code() == other.spec_code() && self@ == other@ {
                Self::lemma_equal_by_parts(*self, *other);
            }
        }
        if self.code != other.code || self.size != other.size {
            assert(self@.len() == self.size);
            assert(other@.len() == other.size);
            return false;
        }
        let mut i: usize = 0;
        while i < self.size as usize
            invariant
                i <= self.size <= 64,
                self.size == other.size,
                forall|j: int| 0 <= j < i ==> self.digest[j] == other.digest[j],
            decreases self.size - i,
        {
            if self.digest[i] != other.digest[i] {
                assert(self@[i as int] == self.digest[i as int]);
                assert(other@[i as int] == other.digest[i as int]);
                return false;
            }
            i = i + 1;
        }
        assert(self@ =~= other@);
        true
    }
}

/// A version-1 content identifier: the codec of a block and the multihash of
/// its bytes.
#[derive(Clone, Copy, Debug, PartialEq, Eq, Hash)]
pub struct Cid {
    pub codec: u64,
    pub hash: Multihash,
}

impl Cid {
    /// Whether the multihash inside is well formed; every identifier built by
    /// this library is.
    pub open spec fn wf(&self) -> bool {
        self.hash.inv()
    }

    pub fn new_v1(codec: u64, hash: Multihash) -> (r: Cid)
        ensures
            r == (Cid { codec, hash }),
            r.wf(),
    {
        proof {
            use_type_invariant(&hash);
        }
        Cid { codec, hash }
    }

    pub fn codec(&self) -> (r: u64)
        ensures
            r == self.codec,
    {
        self.codec
    }

    pub fn hash(&self) -> (r: Multihash)
        ensures
            r == self.hash,
            r.inv(),
    {
        proof {
            use_type_invariant(&self.hash);
        }
        self.hash
    }

    /// The fixed-width encoding: the codec in little-endian order, then the
    /// encoding of the multihash.
    pub open spec fn spec_encoding(&self) -> Seq<u8> {
        spec_u64_to_le_bytes(self.codec) + self.hash.spec_encoding()
    }

    /// Whether `bytes` has the shape of an encoding.
    pub open spec fn encoded(bytes: Seq<u8>) -> bool {
        bytes.len() == CID_ENCODED_LEN && Multihash::encoded(bytes.subrange(8, 81))
    }

    /// The encoding of a well-formed identifier has the shape of one.
    pub proof fn lemma_encoding_shape(self)
        requires
            self.wf(),
        ensures
            Self::encoded(self.spec_encoding()),
    {
        lemma_auto_spec_u64_to_from_le_bytes();
        self.hash.lemma_encoding_shape();
        assert(self.spec_encoding().subrange(8, 81) =~= self.hash.spec_encoding());
    }

    /// Identifiers with the same encoding are the same.
    pub proof fn lemma_encoding_injective(a: Cid, b: Cid)
        requires
            a.wf(),
            b.wf(),
            a.spec_encoding() == b.spec_encoding(),
        ensures
            a == b,
    {
        lemma_auto_spec_u64_to_from_le_bytes();
        a.hash.lemma_encoding_shape();
        b.hash.lemma_encoding_shape();
        assert(a.spec_encoding().subrange(0, 8) =~= spec_u64_to_le_bytes(a.codec));
        assert(b.spec_encoding().subrange(0, 8) =~= spec_u64_to_le_bytes(b.codec));
        assert(a.spec_encoding().subrange(8, 81) =~= a.hash.spec_encoding());
        assert(b.spec_encoding().subrange(8, 81) =~= b.hash.spec_encoding());
        Multihash::lemma_encoding_injective(a.hash, b.hash);
    }

    /// Appends the encoding to `out`.
    pub fn encode(&self, out: &mut Vec<u8>)
        ensures
            final(out)@ == old(out)@ + self.spec_encoding(),
    {
        let codec = u64_to_le_bytes(self.codec);
        append(out, codec.as_slice());
        self.hash.encode(out);
        assert(out@ =~= old(out)@ + self.spec_encoding());
    }

    /// Reads an identifier back from its encoding; `None` when `bytes` has
    /// not the shape of one.
    pub fn decode(bytes: &[u8]) -> (r: Option<Cid>)
        ensures
            r is Some <==> Self::encoded(bytes@),
            r matches Some(c) ==> c.wf() && c.spec_encoding() == bytes@,
    {
        if bytes.len() != CID_ENCODED_LEN {
            return None;
        }
        let codec = u64_from_le_bytes(slice_subrange(bytes, 0, 8));
        match Multihash::decode(slice_subrange(bytes, 8, 81)) {
            Some(hash) => {
                let c = Cid { codec, hash };
                proof {
                    lemma_auto_spec_u64_to_from_le_bytes();
                    assert(c.spec_encoding() =~= bytes@);
                }
                Some(c)
            },
            None => None,
        }
    }

    /// Whether two identifiers are the same value.
    pub fn same(&self, other: &Cid) -> (r: bool)
        ensures
            r == (*self == *other),
    {
        self.codec == other.codec && self.hash.same(&other.hash)
    }
}

} // verus!
