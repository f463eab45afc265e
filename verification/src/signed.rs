//! Two's-complement bridging between signed integers and the unsigned
//! representative whose little-endian bytes they absorb and sample as.

use vstd::prelude::*;

verus! {

/// The unsigned two's-complement representative of an `i8`.
pub open spec fn u8_of_i8(v: i8) -> u8 {
    if v >= 0 {
        v as u8
    } else {
        (v + 0x100) as u8
    }
}

/// The `i8` whose two's-complement representative is `u`.
pub open spec fn i8_of_u8(u: u8) -> i8 {
    if u < 0x80 {
        u as i8
    } else {
        (u - 0x100) as i8
    }
}

/// The unsigned two's-complement representative of an `i16`.
pub open spec fn u16_of_i16(v: i16) -> u16 {
    if v >= 0 {
        v as u16
    } else {
        (v + 0x1_0000) as u16
    }
}

/// The `i16` whose two's-complement representative is `u`.
pub open spec fn i16_of_u16(u: u16) -> i16 {
    if u < 0x8000 {
        u as i16
    } else {
        (u - 0x1_0000) as i16
    }
}

/// The unsigned two's-complement representative of an `i32`.
pub open spec fn u32_of_i32(v: i32) -> u32 {
    if v >= 0 {
        v as u32
    } else {
        (v + 0x1_0000_0000) as u32
    }
}

/// The `i32` whose two's-complement representative is `u`.
pub open spec fn i32_of_u32(u: u32) -> i32 {
    if u < 0x8000_0000 {
        u as i32
    } else {
        (u - 0x1_0000_0000) as i32
    }
}

/// The unsigned two's-complement representative of an `i64`.
pub open spec fn u64_of_i64(v: i64) -> u64 {
    if v >= 0 {
        v as u64
    } else {
        (v + 0x1_0000_0000_0000_0000) as u64
    }
}

/// The `i64` whose two's-complement representative is `u`.
pub open spec fn i64_of_u64(u: u64) -> i64 {
    if u < 0x8000_0000_0000_0000 {
        u as i64
    } else {
        (u - 0x1_0000_0000_0000_0000) as i64
    }
}

/// The unsigned two's-complement representative of an `i128`.
pub open spec fn u128_of_i128(v: i128) -> u128 {
    if v >= 0 {
        v as u128
    } else {
        (v + 0x1_0000_0000_0000_0000_0000_0000_0000_0000) as u128
    }
}

pub fn i8_to_u8(v: i8) -> (u: u8)
    ensures
        u == u8_of_i8(v),
{
    if v >= 0 {
        v as u8
    } else {
        ((v as i16) + 0x100) as u8
    }
}

pub fn u8_to_i8(u: u8) -> (v: i8)
    ensures
        v == i8_of_u8(u),
{
    if u < 0x80 {
        u as i8
    } else {
        ((u as i16) - 0x100) as i8
    }
}

pub fn i16_to_u16(v: i16) -> (u: u16)
    ensures
        u == u16_of_i16(v),
{
    if v >= 0 {
        v as u16
    } else {
        ((v as i32) + 0x1_0000) as u16
    }
}

pub fn u16_to_i16(u: u16) -> (v: i16)
    ensures
        v == i16_of_u16(u),
{
    if u < 0x8000 {
        u as i16
    } else {
        ((u as i32) - 0x1_0000) as i16
    }
}

pub fn i32_to_u32(v: i32) -> (u: u32)
    ensures
        u == u32_of_i32(v),
{
    if v >= 0 {
        v as u32
    } else {
        ((v as i64) + 0x1_0000_0000) as u32
    }
}

pub fn u32_to_i32(u: u32) -> (v: i32)
    ensures
        v == i32_of_u32(u),
{
    if u < 0x8000_0000 {
        u as i32
    } else {
        ((u as i64) - 0x1_0000_0000) as i32
    }
}

pub fn i64_to_u64(v: i64) -> (u: u64)
    ensures
        u == u64_of_i64(v),
{
    if v >= 0 {
        v as u64
    } else {
        ((v as i128) + 0x1_0000_0000_0000_0000) as u64
    }
}

pub fn u64_to_i64(u: u64) -> (v: i64)
    ensures
        v == i64_of_u64(u),
{
    if u < 0x8000_0000_0000_0000 {
        u as i64
    } else {
        ((u as i128) - 0x1_0000_0000_0000_0000) as i64
    }
}

pub fn i128_to_u128(v: i128) -> (u: u128)
    ensures
        u == u128_of_i128(v),
{
    if v >= 0 {
        v as u128
    } else {
        let m: u128 = (-(v + 1)) as u128;
        proof {
            assert(!m == 0xffff_ffff_ffff_ffff_ffff_ffff_ffff_ffffu128 - m) by (bit_vector)
                requires
                    m < 0x8000_0000_0000_0000_0000_0000_0000_0000u128,
            ;
        }
        !m
    }
}

} // verus!
