//! Little-endian wire encoding of the integers exchanged with the LED
//! controller over the serial line.
use vstd::prelude::*;
use vstd::arithmetic::div_mod::lemma_fundamental_div_mod_converse;

verus! {

/// The two's complement bit pattern of `v` as an unsigned value of `bits` bits.
pub open spec fn unsigned_bits(v: int, bits: nat) -> int {
    if v < 0 {
        v + pow2(bits)
    } else {
        v
    }
}

/// `2^n` for the few widths used on the wire.
pub open spec fn pow2(n: nat) -> int {
    if n == 8 {
        0x100
    } else if n == 16 {
        0x1_0000
    } else {
        0x1_0000_0000
    }
}

/// The signed value of the unsigned `bits`-bit pattern `u`.
pub open spec fn signed_of(u: int, bits: nat) -> int {
    if u >= pow2(bits) / 2 {
        u - pow2(bits)
    } else {
        u
    }
}

/// The bytes of the unsigned value `u`, least significant first.
pub open spec fn le_bytes2(u: int) -> Seq<u8> {
    seq![(u % 0x100) as u8, ((u / 0x100) % 0x100) as u8]
}

/// The bytes of the unsigned value `u`, least significant first.
pub open spec fn le_bytes4(u: int) -> Seq<u8> {
    seq![
        (u % 0x100) as u8,
        ((u / 0x100) % 0x100) as u8,
        ((u / 0x1_0000) % 0x100) as u8,
        ((u / 0x100_0000) % 0x100) as u8,
    ]
}

/// The unsigned value of two bytes, least significant first.
pub open spec fn le_value2(b: Seq<u8>) -> int {
    b[0] as int + 0x100 * b[1] as int
}

/// The unsigned value of four bytes, least significant first.
pub open spec fn le_value4(b: Seq<u8>) -> int {
    b[0] as int + 0x100 * b[1] as int + 0x1_0000 * b[2] as int + 0x100_0000 * b[3] as int
}

/// What goes on the wire for an `i16`.
pub open spec fn spec_encode_i16(v: i16) -> Seq<u8> {
    le_bytes2(unsigned_bits(v as int, 16))
}

/// What goes on the wire for an `i32`.
pub open spec fn spec_encode_i32(v: i32) -> Seq<u8> {
    le_bytes4(unsigned_bits(v as int, 32))
}

/// The `i16` that two received bytes stand for.
pub open spec fn spec_decode_i16(b: Seq<u8>) -> int {
    signed_of(le_value2(b), 16)
}

/// The `i32` that four received bytes stand for.
pub open spec fn spec_decode_i32(b: Seq<u8>) -> int {
    signed_of(le_value4(b), 32)
}

/// The byte sent for an `i8`: its two's complement pattern.
pub fn i8_to_byte(value: i8) -> (b: u8)
    ensures
        b as int == unsigned_bits(value as int, 8),
{
    if value < 0 {
        (value as i16 + 256) as u8
    } else {
        value as u8
    }
}

/// The `i8` that a received byte stands for.
pub fn byte_to_i8(b: u8) -> (value: i8)
    ensures
        value as int == signed_of(b as int, 8),
{
    if b >= 128 {
        (b as i16 - 256) as i8
    } else {
        b as i8
    }
}

/// The two bytes sent for an `i16`, least significant first.
pub fn encode_i16(value: i16) -> (bytes: Vec<u8>)
    ensures
        bytes@ == spec_encode_i16(value),
{
    let u: u32 = if value < 0 {
        (value as i32 + 0x1_0000) as u32
    } else {
        value as u32
    };
    let mut bytes: Vec<u8> = Vec::new();
    bytes.push((u % 0x100) as u8);
    bytes.push(((u / 0x100) % 0x100) as u8);
    bytes
}

/// The four bytes sent for an `i32`, least significant first.
pub fn encode_i32(value: i32) -> (bytes: Vec<u8>)
    ensures
        bytes@ == spec_encode_i32(value),
{
    let u: u64 = if value < 0 {
        (value as i64 + 0x1_0000_0000) as u64
    } else {
        value as u64
    };
    let mut bytes: Vec<u8> = Vec::new();
    bytes.push((u % 0x100) as u8);
    bytes.push(((u / 0x100) % 0x100) as u8);
    bytes.push(((u / 0x1_0000) % 0x100) as u8);
    bytes.push(((u / 0x100_0000) % 0x100) as u8);
    bytes
}

/// The `i16` that two received bytes (least significant first) stand for.
pub fn decode_i16(b0: u8, b1: u8) -> (value: i16)
    ensures
        value as int == spec_decode_i16(seq![b0, b1]),
{
    let u: i32 = b0 as i32 + 0x100 * b1 as i32;
    if u >= 0x8000 {
        (u - 0x1_0000) as i16
    } else {
        u as i16
    }
}

/// The `i32` that four received bytes (least significant first) stand for.
pub fn decode_i32(b0: u8, b1: u8, b2: u8, b3: u8) -> (value: i32)
    ensures
        value as int == spec_decode_i32(seq![b0, b1, b2, b3]),
{
    let u: i64 = b0 as i64 + 0x100 * b1 as i64 + 0x1_0000 * b2 as i64 + 0x100_0000 * b3 as i64;
    if u >= 0x8000_0000 {
        (u - 0x1_0000_0000) as i32
    } else {
        u as i32
    }
}

/// Decoding what was encoded gives the value back: an `i16` survives the wire.
pub proof fn lemma_i16_roundtrip(v: i16)
    ensures
        spec_decode_i16(spec_encode_i16(v)) == v as int,
{
}

/// Decoding what was encoded gives the value back: an `i32` survives the wire.
pub proof fn lemma_i32_roundtrip(v: i32)
    ensures
        spec_decode_i32(spec_encode_i32(v)) == v as int,
{
}

/// Every pair of bytes is the encoding of the `i16` it decodes to.
pub proof fn lemma_i16_bytes_roundtrip(b0: u8, b1: u8)
    ensures
        spec_decode_i16(seq![b0, b1]) >= i16::MIN,
        spec_decode_i16(seq![b0, b1]) <= i16::MAX,
        spec_encode_i16(spec_decode_i16(seq![b0, b1]) as i16) == seq![b0, b1],
{
    assert(spec_encode_i16(spec_decode_i16(seq![b0, b1]) as i16) =~= seq![b0, b1]);
}

/// Every four bytes are the encoding of the `i32` they decode to.
pub proof fn lemma_i32_bytes_roundtrip(b0: u8, b1: u8, b2: u8, b3: u8)
    ensures
        spec_decode_i32(seq![b0, b1, b2, b3]) >= i32::MIN,
        spec_decode_i32(seq![b0, b1, b2, b3]) <= i32::MAX,
        spec_encode_i32(spec_decode_i32(seq![b0, b1, b2, b3]) as i32) == seq![b0, b1, b2, b3],
{
    let u = le_value4(seq![b0, b1, b2, b3]);
    let k1 = b1 as int + 0x100 * b2 as int + 0x1_0000 * b3 as int;
    let k2 = b2 as int + 0x100 * b3 as int;
    assert(u == k1 * 0x100 + b0 as int);
    lemma_fundamental_div_mod_converse(u, 0x100, k1, b0 as int);
    assert(u == (b2 as int + 0x100 * b3 as int) * 0x1_0000 + (b0 as int + 0x100 * b1 as int));
    lemma_fundamental_div_mod_converse(u, 0x1_0000, k2, b0 as int + 0x100 * b1 as int);
    assert(u == (b3 as int) * 0x100_0000 + (b0 as int + 0x100 * b1 as int + 0x1_0000 * b2 as int));
    lemma_fundamental_div_mod_converse(
        u,
        0x100_0000,
        b3 as int,
        b0 as int + 0x100 * b1 as int + 0x1_0000 * b2 as int,
    );
    lemma_fundamental_div_mod_converse(k1, 0x100, k2, b1 as int);
    lemma_fundamental_div_mod_converse(k2, 0x100, b3 as int, b2 as int);
    lemma_fundamental_div_mod_converse(b3 as int, 0x100, 0, b3 as int);
    assert(spec_encode_i32(spec_decode_i32(seq![b0, b1, b2, b3]) as i32) =~= seq![b0, b1, b2, b3]);
}

/// A signed byte survives the wire.
pub proof fn lemma_i8_roundtrip(v: i8)
    ensures
        signed_of(unsigned_bits(v as int, 8), 8) == v as int,
{
}

} // verus!
