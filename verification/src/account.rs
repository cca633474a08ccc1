//! The stored form of an account: a list of four byte strings, which spell
//! the nonce, the balance, the storage root and the code hash.

use vstd::prelude::*;
use crate::executor::Account;
use crate::primitive::{H256, U256};

verus! {

/// The byte strings of the items of the list that `bytes` encodes, as
/// `rlp::Rlp::as_list` reads them, or none where it reads no such list.
pub uninterp spec fn rlp_byte_list(bytes: Seq<u8>) -> Option<Seq<Seq<u8>>>;

/// What a list of byte vectors holds.
pub open spec fn contents(items: Seq<Vec<u8>>) -> Seq<Seq<u8>> {
    items.map_values(|item: Vec<u8>| item@)
}

/// Calls `rlp::Rlp::new` on `bytes` and `as_list` on what it gives, for
/// items that are byte strings. Trusted: what comes back depends on the
/// bytes alone.
#[verifier::external_body]
pub(crate) fn rlp_items(bytes: &[u8]) -> (r: Option<Vec<Vec<u8>>>)
    ensures
        match r {
            Some(items) => rlp_byte_list(bytes@) == Some(contents(items@)),
            None => rlp_byte_list(bytes@) is None,
        },
{
    rlp::Rlp::new(bytes).as_list::<Vec<u8>>().ok()
}

/// The number that bytes spell, highest byte first.
pub open spec fn be_nat(bytes: Seq<u8>) -> nat
    decreases bytes.len(),
{
    if bytes.len() == 0 {
        0
    } else {
        be_nat(bytes.drop_last()) * 256 + bytes.last() as nat
    }
}

/// The least number that `n` bytes cannot spell, for up to sixteen bytes.
pub open spec fn limit(n: int) -> nat {
    if n <= 0 {
        1
    } else if n == 1 {
        0x100
    } else if n == 2 {
        0x10000
    } else if n == 3 {
        0x1000000
    } else if n == 4 {
        0x100000000
    } else if n == 5 {
        0x10000000000
    } else if n == 6 {
        0x1000000000000
    } else if n == 7 {
        0x100000000000000
    } else if n == 8 {
        0x10000000000000000
    } else if n == 9 {
        0x1000000000000000000
    } else if n == 10 {
        0x100000000000000000000
    } else if n == 11 {
        0x10000000000000000000000
    } else if n == 12 {
        0x1000000000000000000000000
    } else if n == 13 {
        0x100000000000000000000000000
    } else if n == 14 {
        0x10000000000000000000000000000
    } else if n == 15 {
        0x1000000000000000000000000000000
    } else {
        0xffffffffffffffffffffffffffffffff + 1
    }
}

/// Reads the bytes from `from` up to `to`, sixteen at most, as one number.
fn spell(bytes: &[u8], from: usize, to: usize) -> (r: u128)
    requires
        from <= to <= bytes@.len(),
        to - from <= 16,
    ensures
        r as nat == be_nat(bytes@.subrange(from as int, to as int)),
{
    let mut acc: u128 = 0;
    let mut i: usize = from;
    while i < to
        invariant
            from <= i <= to <= bytes@.len(),
            to - from <= 16,
            acc as nat == be_nat(bytes@.subrange(from as int, i as int)),
            (acc as nat) < limit(i - from),
        decreases to - i,
    {
        proof {
            let next = bytes@.subrange(from as int, i + 1);
            assert(next.drop_last() == bytes@.subrange(from as int, i as int));
            assert(next.last() == bytes@[i as int]);
        }
        acc = acc * 256 + bytes[i] as u128;
        i = i + 1;
    }
    acc
}

/// The number that two runs of bytes spell together is the number of the
/// first, moved up by the length of the second, plus that of the second.
proof fn be_nat_joins(a: Seq<u8>, b: Seq<u8>)
    requires
        b.len() <= 16,
    ensures
        be_nat(a + b) == be_nat(a) * limit(b.len() as int) + be_nat(b),
    decreases b.len(),
{
    if b.len() == 0 {
        assert(a + b == a);
        assert(be_nat(b) == 0);
        assert(be_nat(a) * 1 == be_nat(a)) by (nonlinear_arith);
    } else {
        let front = b.drop_last();
        let n = b.len() as int;
        assert((a + b).drop_last() == a + front);
        assert((a + b).last() == b.last());
        be_nat_joins(a, front);
        assert(limit(n) == limit(n - 1) * 256);
        assert(be_nat(a) * limit(n - 1) * 256 == be_nat(a) * limit(n)) by (nonlinear_arith)
            requires
                limit(n) == limit(n - 1) * 256,
        ;
        assert((be_nat(a) * limit(n - 1) + be_nat(front)) * 256 == be_nat(a) * limit(n - 1) * 256
            + be_nat(front) * 256) by (nonlinear_arith);
        assert(be_nat(a + b) == be_nat(a + front) * 256 + b.last() as nat);
        assert(be_nat(b) == be_nat(front) * 256 + b.last() as nat);
    }
}

/// Whether bytes spell a number in the one accepted way: at most 32 bytes,
/// the first of them not zero.
pub open spec fn canonical(bytes: Seq<u8>) -> bool {
    bytes.len() <= 32 && (bytes.len() > 0 ==> bytes[0] != 0)
}

/// Reads a number of up to 256 bits, highest byte first. Bytes that start
/// with a zero, and more than 32 bytes, are turned down.
pub fn number_from_be(bytes: &[u8]) -> (r: Option<U256>)
    ensures
        match r {
            Some(value) => canonical(bytes@) && value.value() == be_nat(bytes@),
            None => !canonical(bytes@),
        },
{
    let n = bytes.len();
    if n > 32 {
        return None;
    }
    if n > 0 && bytes[0] == 0 {
        return None;
    }
    if n > 16 {
        proof {
            let high = bytes@.subrange(0, n - 16);
            let low = bytes@.subrange(n - 16, n as int);
            assert(bytes@ == high + low);
            be_nat_joins(high, low);
        }
        Some(U256 { hi: spell(bytes, 0, n - 16), lo: spell(bytes, n - 16, n) })
    } else {
        assert(bytes@.subrange(0, n as int) == bytes@);
        Some(U256 { hi: 0, lo: spell(bytes, 0, n) })
    }
}

/// Reads a hash: exactly 32 bytes.
pub fn hash_from(bytes: &[u8]) -> (r: Option<H256>)
    ensures
        match r {
            Some(hash) => hash@ == bytes@,
            None => bytes@.len() != 32,
        },
{
    if bytes.len() != 32 {
        return None;
    }
    let mut out: H256 = [0u8; 32];
    let mut i: usize = 0;
    while i < 32
        invariant
            i <= 32,
            bytes@.len() == 32,
            forall|j: int| 0 <= j < i ==> out@[j] == bytes@[j],
        decreases 32 - i,
    {
        out[i] = bytes[i];
        i = i + 1;
    }
    assert(out@ =~= bytes@);
    Some(out)
}

/// Whether four fields are those of an account: two numbers and two hashes.
pub open spec fn is_record(fields: Seq<Seq<u8>>) -> bool {
    &&& fields.len() == 4
    &&& canonical(fields[0])
    &&& canonical(fields[1])
    &&& fields[2].len() == 32
    &&& fields[3].len() == 32
}

/// Whether `account` is what the fields say: nonce, balance, storage root
/// and code hash, in that order.
pub open spec fn records(fields: Seq<Seq<u8>>, account: Account) -> bool {
    &&& account.nonce.value() == be_nat(fields[0])
    &&& account.balance.value() == be_nat(fields[1])
    &&& account.storage_root@ == fields[2]
    &&& account.code_hash@ == fields[3]
}

/// Whether `r` is what a stored record decodes to: the account that its
/// four fields say, or nothing where it does not hold four such fields.
pub open spec fn decodes(bytes: Seq<u8>, r: Option<Account>) -> bool {
    match r {
        Some(account) => match rlp_byte_list(bytes) {
            Some(fields) => is_record(fields) && records(fields, account),
            None => false,
        },
        None => match rlp_byte_list(bytes) {
            Some(fields) => !is_record(fields),
            None => true,
        },
    }
}

/// Builds an account from the fields of its record.
pub fn account_from_fields(fields: &Vec<Vec<u8>>) -> (r: Option<Account>)
    ensures
        match r {
            Some(account) => is_record(contents(fields@)) && records(contents(fields@), account),
            None => !is_record(contents(fields@)),
        },
{
    if fields.len() != 4 {
        return None;
    }
    let nonce = match number_from_be(fields[0].as_slice()) {
        Some(value) => value,
        None => {
            return None;
        },
    };
    let balance = match number_from_be(fields[1].as_slice()) {
        Some(value) => value,
        None => {
            return None;
        },
    };
    let storage_root = match hash_from(fields[2].as_slice()) {
        Some(hash) => hash,
        None => {
            return None;
        },
    };
    let code_hash = match hash_from(fields[3].as_slice()) {
        Some(hash) => hash,
        None => {
            return None;
        },
    };
    Some(Account { nonce, balance, storage_root, code_hash })
}

/// Decodes a stored account record.
pub fn decode_account(bytes: &[u8]) -> (r: Option<Account>)
    ensures
        decodes(bytes@, r),
{
    match rlp_items(bytes) {
        Some(fields) => account_from_fields(&fields),
        None => None,
    }
}

} // verus!
