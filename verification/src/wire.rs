//! Bounds-checked reads of little-endian integers out of a byte buffer, and
//! extraction of sub-buffers. The storage, standard and extra header fields
//! and all payload numbers are read through these.

use vstd::prelude::*;

verus! {

pub open spec fn spec_u16_at(s: Seq<u8>, i: int) -> u16 {
    (s[i] + s[i + 1] * 0x100) as u16
}

pub open spec fn spec_u32_at(s: Seq<u8>, i: int) -> u32 {
    (s[i] + s[i + 1] * 0x100 + s[i + 2] * 0x10000 + s[i + 3] * 0x1000000) as u32
}

pub open spec fn spec_u64_at(s: Seq<u8>, i: int) -> u64 {
    (s[i] + s[i + 1] * 0x100 + s[i + 2] * 0x10000 + s[i + 3] * 0x1000000 + s[i + 4]
        * 0x100000000 + s[i + 5] * 0x10000000000 + s[i + 6] * 0x1000000000000 + s[i + 7]
        * 0x100000000000000) as u64
}

pub open spec fn spec_u128_at(s: Seq<u8>, i: int) -> u128 {
    (s[i] + s[i + 1] * 0x100 + s[i + 2] * 0x10000 + s[i + 3] * 0x1000000 + s[i + 4]
        * 0x100000000 + s[i + 5] * 0x10000000000 + s[i + 6] * 0x1000000000000 + s[i + 7]
        * 0x100000000000000 + s[i + 8] * 0x10000000000000000 + s[i + 9] * 0x1000000000000000000
        + s[i + 10] * 0x100000000000000000000 + s[i + 11] * 0x10000000000000000000000 + s[i + 12]
        * 0x1000000000000000000000000 + s[i + 13] * 0x100000000000000000000000000 + s[i + 14]
        * 0x10000000000000000000000000000 + s[i + 15] * 0x1000000000000000000000000000000) as u128
}

/// The signed reading of an unsigned 32-bit value, two's complement.
pub open spec fn spec_i32_v(u: u32) -> int {
    if u < 0x80000000 {
        u as int
    } else {
        u - 0x100000000
    }
}

pub fn read_u16_at(v: &Vec<u8>, i: usize) -> (r: u16)
    requires
        i + 2 <= v@.len(),
    ensures
        r == spec_u16_at(v@, i as int),
{
    proof {
        assert(i + 2 <= v.len());
    }
    (v[i] as u16) + (v[i + 1] as u16) * 0x100
}

pub fn read_u32_at(v: &Vec<u8>, i: usize) -> (r: u32)
    requires
        i + 4 <= v@.len(),
    ensures
        r == spec_u32_at(v@, i as int),
{
    proof {
        assert(i + 4 <= v.len());
    }
    (v[i] as u32) + (v[i + 1] as u32) * 0x100 + (v[i + 2] as u32) * 0x10000 + (v[i + 3] as u32)
        * 0x1000000
}

pub fn read_u64_at(v: &Vec<u8>, i: usize) -> (r: u64)
    requires
        i + 8 <= v@.len(),
    ensures
        r == spec_u64_at(v@, i as int),
{
    proof {
        assert(i + 8 <= v.len());
    }
    (v[i] as u64) + (v[i + 1] as u64) * 0x100 + (v[i + 2] as u64) * 0x10000 + (v[i + 3] as u64)
        * 0x1000000 + (v[i + 4] as u64) * 0x100000000 + (v[i + 5] as u64) * 0x10000000000 + (v[i
        + 6] as u64) * 0x1000000000000 + (v[i + 7] as u64) * 0x100000000000000
}

pub fn read_u128_at(v: &Vec<u8>, i: usize) -> (r: u128)
    requires
        i + 16 <= v@.len(),
    ensures
        r == spec_u128_at(v@, i as int),
{
    proof {
        assert(i + 16 <= v.len());
    }
    (v[i] as u128) + (v[i + 1] as u128) * 0x100 + (v[i + 2] as u128) * 0x10000 + (v[i + 3] as u128)
        * 0x1000000 + (v[i + 4] as u128) * 0x100000000 + (v[i + 5] as u128) * 0x10000000000 + (v[i
        + 6] as u128) * 0x1000000000000 + (v[i + 7] as u128) * 0x100000000000000 + (v[i
        + 8] as u128) * 0x10000000000000000 + (v[i + 9] as u128) * 0x1000000000000000000 + (v[i
        + 10] as u128) * 0x100000000000000000000 + (v[i + 11] as u128) * 0x10000000000000000000000
        + (v[i + 12] as u128) * 0x1000000000000000000000000 + (v[i + 13] as u128)
        * 0x100000000000000000000000000 + (v[i + 14] as u128) * 0x10000000000000000000000000000 + (
    v[i + 15] as u128) * 0x1000000000000000000000000000000
}

/// A 32-bit field reinterpreted as a signed value.
pub fn i32_from_bits(u: u32) -> (r: i32)
    ensures
        r as int == spec_i32_v(u),
{
    if u < 0x80000000 {
        u as i32
    } else {
        let m: u32 = u - 0x80000000;
        let r64: i64 = (m as i64) - 0x80000000i64;
        r64 as i32
    }
}

/// A copy of the bytes in `[from, to)`.
pub fn subvec(v: &Vec<u8>, from: usize, to: usize) -> (r: Vec<u8>)
    requires
        from <= to <= v@.len(),
    ensures
        r@ == v@.subrange(from as int, to as int),
{
    let mut r: Vec<u8> = Vec::new();
    let mut i: usize = from;
    while i < to
        invariant
            from <= i <= to <= v@.len(),
            r@ == v@.subrange(from as int, i as int),
        decreases to - i,
    {
        r.push(v[i]);
        proof {
            assert(r@ =~= v@.subrange(from as int, i + 1));
        }
        i += 1;
    }
    r
}

} // verus!
