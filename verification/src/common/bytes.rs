//! Numbers as bytes, most significant byte first.

use vstd::arithmetic::div_mod::lemma_div_denominator;
use vstd::arithmetic::power::lemma_pow0;
use vstd::arithmetic::power::lemma_pow1;
use vstd::arithmetic::power::lemma_pow_adds;
use vstd::arithmetic::power::lemma_pow_positive;
use vstd::arithmetic::power::pow;
use vstd::prelude::*;

verus! {

/// The last `len` bytes of `value`, most significant byte first.
pub open spec fn be_bytes(value: nat, len: nat) -> Seq<u8>
    decreases len,
{
    if len == 0 {
        Seq::empty()
    } else {
        be_bytes(value / 256, (len - 1) as nat).push((value % 256) as u8)
    }
}

/// 256 to the power of `len`.
pub open spec fn byte_range(len: nat) -> nat
    decreases len,
{
    if len == 0 {
        1
    } else {
        256 * byte_range((len - 1) as nat)
    }
}

pub proof fn be_bytes_len(value: nat, len: nat)
    ensures
        be_bytes(value, len).len() == len,
    decreases len,
{
    if len > 0 {
        be_bytes_len(value / 256, (len - 1) as nat);
    }
}

/// Numbers that fit into `len` bytes are told apart by them.
pub proof fn be_bytes_injective(a: nat, b: nat, len: nat)
    requires
        a < byte_range(len),
        b < byte_range(len),
        be_bytes(a, len) == be_bytes(b, len),
    ensures
        a == b,
    decreases len,
{
    if len > 0 {
        let n = (len - 1) as nat;
        let (p, q) = (be_bytes(a / 256, n), be_bytes(b / 256, n));
        be_bytes_len(a / 256, n);
        be_bytes_len(b / 256, n);
        assert(be_bytes(a, len).drop_last() =~= p);
        assert(be_bytes(b, len).drop_last() =~= q);
        assert(be_bytes(a, len).last() == (a % 256) as u8);
        assert(be_bytes(b, len).last() == (b % 256) as u8);
        be_bytes_injective(a / 256, b / 256, n);
    }
}

/// 4 bytes hold every `u32`, 8 bytes every `u64`, and more bytes do too.
pub proof fn byte_range_holds_integers()
    ensures
        byte_range(4) == u32::MAX + 1,
        byte_range(8) == u64::MAX + 1,
        byte_range(32) > u64::MAX,
{
    reveal_with_fuel(byte_range, 33);
}

/// The byte at place `i` of `len` bytes counts how often 256 to the power of `len - 1 - i` goes into
/// the number: the bytes stand in order of their weight, the heaviest first.
pub proof fn be_bytes_place(value: nat, len: nat, i: int)
    requires
        0 <= i < len,
    ensures
        be_bytes(value, len).len() == len,
        be_bytes(value, len)[i] == (value as int / pow(256, (len - 1 - i) as nat)) % 256,
    decreases len,
{
    be_bytes_len(value, len);
    let rest = (len - 1) as nat;
    be_bytes_len(value / 256, rest);
    if i == rest {
        lemma_pow0(256);
        assert(value as int / 1 == value);
    } else {
        be_bytes_place(value / 256, rest, i);
        let k = (rest - 1 - i) as nat;
        lemma_pow_positive(256, k);
        lemma_pow1(256);
        lemma_pow_adds(256, 1, k);
        lemma_div_denominator(value as int, 256, pow(256, k));
    }
}

/// The bytes of a `u64`, most significant byte first.
pub fn u64_be_bytes(value: u64) -> (r: [u8; 8])
    ensures
        r@ == be_bytes(value as nat, 8),
{
    let mut bytes = [0u8; 8];
    let mut rest: u64 = value;
    let mut i: usize = 8;
    let ghost mut low: Seq<u8> = Seq::empty();
    while i > 0
        invariant
            i <= 8,
            bytes@.len() == 8,
            bytes@.subrange(i as int, 8) == low,
            be_bytes(value as nat, 8) == be_bytes(rest as nat, i as nat) + low,
        decreases i,
    {
        let ghost before = low;
        let ghost rest_before = rest;
        i = i - 1;
        bytes[i] = (rest % 256) as u8;
        rest = rest / 256;
        proof {
            low = seq![(rest_before % 256) as u8] + before;
            assert(bytes@.subrange(i as int, 8) =~= low);
            assert(be_bytes(rest_before as nat, (i + 1) as nat) + before =~= be_bytes(
                rest as nat,
                i as nat,
            ) + low);
        }
    }
    assert(bytes@ =~= low);
    bytes
}

/// A copy of some bytes.
pub fn copy_bytes(bytes: &[u8]) -> (r: Vec<u8>)
    ensures
        r@ == bytes@,
{
    let mut copy: Vec<u8> = Vec::new();
    for i in 0..bytes.len()
        invariant
            copy@ =~= bytes@.take(i as int),
    {
        copy.push(bytes[i]);
    }
    assert(copy@ =~= bytes@);
    copy
}

/// Whether two byte strings are the same.
pub fn bytes_eq(a: &[u8], b: &[u8]) -> (r: bool)
    ensures
        r == (a@ == b@),
{
    if a.len() != b.len() {
        return false;
    }
    for i in 0..a.len()
        invariant
            a@.len() == b@.len(),
            forall|j: int| 0 <= j < i ==> a@[j] == b@[j],
    {
        if a[i] != b[i] {
            return false;
        }
    }
    assert(a@ =~= b@);
    true
}

} // verus!
