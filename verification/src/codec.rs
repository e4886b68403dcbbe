//! Executable helpers for the artifact byte formats: little-endian fields,
//! the body seal, and byte-sequence comparison, each proved against the spec
//! functions of `model`.
use vstd::prelude::*;

use crate::model::{fnv_seal, le4, le4_val, le8, le8_val};
use vstd::arithmetic::div_mod::{
    lemma_div_denominator, lemma_div_is_ordered, lemma_div_pos_is_pos, lemma_fundamental_div_mod,
    lemma_small_mod,
};

verus! {

/// `le4` really inverts `le4_val` on four-byte values.
pub proof fn lemma_le4_roundtrip(n: int)
    requires
        0 <= n < 0x100000000,
    ensures
        le4_val(le4(n)) == n,
{
    lemma_fundamental_div_mod(n, 256);
    lemma_fundamental_div_mod(n / 256, 256);
    lemma_fundamental_div_mod(n / 65536, 256);
    lemma_div_denominator(n, 256, 256);
    lemma_div_denominator(n, 65536, 256);
    assert(n / 16777216 < 256) by {
        lemma_div_is_ordered(n, 0xffffffff, 16777216);
    }
    assert(0 <= n / 16777216) by {
        lemma_div_pos_is_pos(n, 16777216);
    }
    lemma_small_mod((n / 16777216) as nat, 256);
}

/// Every four-byte field has a value below `2^32`.
pub proof fn lemma_le4_val_bound(b: Seq<u8>)
    requires
        b.len() == 4,
    ensures
        0 <= le4_val(b) < 0x100000000,
{
}

/// `le8` really inverts `le8_val` on eight-byte values.
pub proof fn lemma_le8_roundtrip(n: int)
    requires
        0 <= n < 0x10000000000000000,
    ensures
        le8_val(le8(n)) == n,
{
    let lo = n % 0x100000000;
    let hi = n / 0x100000000;
    lemma_fundamental_div_mod(n, 0x100000000);
    lemma_div_pos_is_pos(n, 0x100000000);
    lemma_div_is_ordered(n, 0xffffffffffffffff, 0x100000000);
    assert(le8(n).take(4) =~= le4(lo));
    assert(le8(n).skip(4) =~= le4(hi));
    lemma_le4_roundtrip(lo);
    lemma_le4_roundtrip(hi);
}

/// Appends the four-byte little-endian encoding of `n`.
pub fn push_le4(v: &mut Vec<u8>, n: u32)
    ensures
        final(v)@ == old(v)@ + le4(n as int),
{
    v.push((n % 256) as u8);
    v.push(((n / 256) % 256) as u8);
    v.push(((n / 65536) % 256) as u8);
    v.push(((n / 16777216) % 256) as u8);
    assert(v@ =~= old(v)@ + le4(n as int));
}

/// Reads the four-byte little-endian field at `i`.
pub fn read_le4(v: &Vec<u8>, i: usize) -> (r: u32)
    requires
        i + 4 <= v@.len(),
    ensures
        r as int == le4_val(v@.subrange(i as int, i + 4)),
{
    let _bound = v.len();
    let r = v[i] as u32 + 256 * (v[i + 1] as u32) + 65536 * (v[i + 2] as u32) + 16777216 * (v[i
        + 3] as u32);
    proof {
        let b = v@.subrange(i as int, i + 4);
        assert(b[0] == v@[i as int] && b[1] == v@[i + 1] && b[2] == v@[i + 2] && b[3] == v@[i + 3]);
    }
    r
}

/// Appends the eight-byte little-endian encoding of `n`.
pub fn push_le8(v: &mut Vec<u8>, n: u64)
    ensures
        final(v)@ == old(v)@ + le8(n as int),
{
    let lo = (n % 0x100000000) as u32;
    let hi = (n / 0x100000000) as u32;
    push_le4(v, lo);
    push_le4(v, hi);
    assert(v@ =~= old(v)@ + le8(n as int));
}

/// Reads the eight-byte little-endian field at `i`.
pub fn read_le8(v: &Vec<u8>, i: usize) -> (r: u64)
    requires
        i + 8 <= v@.len(),
    ensures
        r as int == le8_val(v@.subrange(i as int, i + 8)),
{
    let _bound = v.len();
    let lo = read_le4(v, i);
    let hi = read_le4(v, i + 4);
    proof {
        let b = v@.subrange(i as int, i + 8);
        assert(b.take(4) =~= v@.subrange(i as int, i + 4));
        assert(b.skip(4) =~= v@.subrange(i + 4, i + 8));
    }
    lo as u64 + 0x100000000 * (hi as u64)
}

/// Seal over the first `end` bytes of `v`.
pub fn fnv_range(v: &Vec<u8>, end: usize) -> (r: u64)
    requires
        end <= v@.len(),
    ensures
        r == fnv_seal(v@.take(end as int)),
{
    let mut h: u64 = 0xcbf29ce484222325;
    let mut i: usize = 0;
    proof {
        assert(v@.take(0) =~= Seq::<u8>::empty());
    }
    while i < end
        invariant
            i <= end <= v@.len(),
            h == fnv_seal(v@.take(i as int)),
        decreases end - i,
    {
        proof {
            let t = v@.take(i + 1);
            assert(t.drop_last() =~= v@.take(i as int));
            assert(t.last() == v@[i as int]);
        }
        h = (h ^ (v[i] as u64)).wrapping_mul(0x100000001b3);
        i = i + 1;
    }
    h
}

/// Byte-sequence equality.
pub fn bytes_eq(a: &Vec<u8>, b: &Vec<u8>) -> (r: bool)
    ensures
        r <==> a@ == b@,
{
    if a.len() != b.len() {
        return false;
    }
    let mut i: usize = 0;
    while i < a.len()
        invariant
            i <= a@.len(),
            a@.len() == b@.len(),
            forall|j: int| 0 <= j < i ==> a@[j] == b@[j],
        decreases a@.len() - i,
    {
        if a[i] != b[i] {
            return false;
        }
        i = i + 1;
    }
    proof {
        assert(a@ =~= b@);
    }
    true
}

/// Does the range of `a` starting at `start` hold exactly the bytes of `b`?
pub fn range_eq(a: &Vec<u8>, start: usize, len: usize, b: &Vec<u8>) -> (r: bool)
    requires
        start + len <= a@.len(),
    ensures
        r <==> a@.subrange(start as int, start + len) == b@,
{
    let an = a.len();
    if b.len() != len {
        proof {
            assert(a@.subrange(start as int, start + len).len() == len);
        }
        return false;
    }
    let mut i: usize = 0;
    while i < len
        invariant
            i <= len,
            start + len <= a@.len(),
            a@.len() <= an,
            b@.len() == len,
            forall|j: int| 0 <= j < i ==> a@[start + j] == b@[j],
        decreases len - i,
    {
        if a[start + i] != b[i] {
            proof {
                assert(a@.subrange(start as int, start + len)[i as int] != b@[i as int]);
            }
            return false;
        }
        i = i + 1;
    }
    proof {
        assert(a@.subrange(start as int, start + len) =~= b@);
    }
    true
}

/// Copies the range of `v` starting at `start`.
pub fn copy_range(v: &Vec<u8>, start: usize, len: usize) -> (r: Vec<u8>)
    requires
        start + len <= v@.len(),
    ensures
        r@ == v@.subrange(start as int, start + len),
{
    let vn = v.len();
    let mut out: Vec<u8> = Vec::new();
    let mut i: usize = 0;
    while i < len
        invariant
            i <= len,
            start + len <= v@.len(),
            v@.len() <= vn,
            out@ == v@.subrange(start as int, start + i),
        decreases len - i,
    {
        out.push(v[start + i]);
        proof {
            assert(v@.subrange(start as int, start + i + 1) =~= v@.subrange(
                start as int,
                start + i,
            ).push(v@[start + i]));
        }
        i = i + 1;
    }
    out
}

/// Appends all of `b` to `v`.
pub fn push_bytes(v: &mut Vec<u8>, b: &Vec<u8>)
    ensures
        final(v)@ == old(v)@ + b@,
{
    let mut i: usize = 0;
    while i < b.len()
        invariant
            i <= b@.len(),
            v@ == old(v)@ + b@.take(i as int),
        decreases b@.len() - i,
    {
        v.push(b[i]);
        proof {
            assert(old(v)@ + b@.take(i + 1) =~= (old(v)@ + b@.take(i as int)).push(b@[i as int]));
        }
        i = i + 1;
    }
    proof {
        assert(b@.take(b@.len() as int) =~= b@);
    }
}

} // verus!
