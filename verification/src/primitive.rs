//! Hashes, addresses and the content hashes the rest of the crate is built on.

use vstd::prelude::*;

verus! {

/// A 20-byte account address.
pub type H160 = [u8; 20];

/// A 32-byte hash.
pub type H256 = [u8; 32];

/// A 256-bit unsigned integer, split in two halves.
#[derive(Clone, Copy, Debug, PartialEq, Eq, Structural)]
pub struct U256 {
    pub hi: u128,
    pub lo: u128,
}

impl U256 {
    /// The number this value stands for.
    pub open spec fn value(self) -> nat {
        (self.hi as nat) * 0x1_0000_0000_0000_0000_0000_0000_0000_0000 + (self.lo as nat)
    }

    pub fn zero() -> (r: U256)
        ensures
            r.hi == 0,
            r.lo == 0,
            r.value() == 0,
    {
        U256 { hi: 0, lo: 0 }
    }
}

/// The hash whose bytes are all zero.
pub open spec fn zero_hash() -> H256 {
    vstd::array::spec_array_fill_for_copy_type::<u8, 32>(0u8)
}

/// The address whose bytes are all zero.
pub open spec fn zero_address() -> H160 {
    vstd::array::spec_array_fill_for_copy_type::<u8, 20>(0u8)
}

/// The Keccak-256 digest of a byte string, as `tiny_keccak` computes it.
pub uninterp spec fn keccak256(data: Seq<u8>) -> Seq<u8>;

/// The Blake2b-256 digest, personalised for the cell ledger, of a byte string,
/// as `ckb_hash::blake2b_256` computes it.
pub uninterp spec fn blake2b_256(data: Seq<u8>) -> Seq<u8>;

/// Calls `tiny_keccak::Keccak::v256`, feeds it `data` and reads the digest.
/// Trusted: the 32 bytes returned are the Keccak-256 digest of `data`, a
/// function of `data` alone.
#[verifier::external_body]
pub(crate) fn keccak_digest(data: &[u8]) -> (r: H256)
    ensures
        r@ == keccak256(data@),
{
    let mut out = [0u8; 32];
    let mut hasher = tiny_keccak::Keccak::v256();
    tiny_keccak::Hasher::update(&mut hasher, data);
    tiny_keccak::Hasher::finalize(hasher, &mut out);
    out
}

/// Calls `ckb_hash::blake2b_256`. Trusted: the 32 bytes returned are the
/// ledger's Blake2b-256 digest of `data`, a function of `data` alone.
#[verifier::external_body]
pub(crate) fn blake2b_digest(data: &[u8]) -> (r: H256)
    ensures
        r@ == blake2b_256(data@),
{
    ckb_hash::blake2b_256(data)
}

/// Content hash used throughout the account model.
pub struct Hasher;

impl Hasher {
    /// Keccak-256 of `bytes`.
    pub fn digest(bytes: &[u8]) -> (r: H256)
        ensures
            r@ == keccak256(bytes@),
    {
        keccak_digest(bytes)
    }
}

/// Whether two hashes hold the same bytes.
pub fn same_hash(a: &H256, b: &H256) -> (r: bool)
    ensures
        r == (*a == *b),
        r == (a@ == b@),
{
    let mut i: usize = 0;
    while i < 32
        invariant
            i <= 32,
            forall|j: int| 0 <= j < i ==> a[j] == b[j],
        decreases 32 - i,
    {
        if a[i] != b[i] {
            return false;
        }
        i = i + 1;
    }
    assert(*a =~= *b);
    true
}

/// A copy of a byte vector.
pub fn copy_bytes(v: &Vec<u8>) -> (r: Vec<u8>)
    ensures
        r@ == v@,
{
    let mut out: Vec<u8> = Vec::new();
    let mut i: usize = 0;
    while i < v.len()
        invariant
            i <= v.len(),
            out@ == v@.take(i as int),
        decreases v.len() - i,
    {
        out.push(v[i]);
        assert(v@.take(i + 1) == v@.take(i as int).push(v@[i as int]));
        i = i + 1;
    }
    assert(v@.take(v.len() as int) == v@);
    out
}

} // verus!
