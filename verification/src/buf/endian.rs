//! Big-endian integers: what a run of bytes means, and the bytes of a value.
use byteorder::{BigEndian, ByteOrder};
use vstd::prelude::*;

verus! {

/// `256` raised to `width`: the number of values that `width` bytes can hold.
pub open spec fn byte_radix_pow(width: nat) -> nat
    decreases width,
{
    if width == 0 {
        1
    } else {
        256 * byte_radix_pow((width - 1) as nat)
    }
}

/// The unsigned number whose big-endian (most significant byte first) bytes are `bytes`.
pub open spec fn be_value(bytes: Seq<u8>) -> nat
    decreases bytes.len(),
{
    if bytes.len() == 0 {
        0
    } else {
        (be_value(bytes.drop_last()) * 256 + bytes.last()) as nat
    }
}

/// The `width` low-order bytes of `v`, most significant first.
pub open spec fn be_encode(v: nat, width: nat) -> Seq<u8>
    decreases width,
{
    if width == 0 {
        Seq::empty()
    } else {
        be_encode(v / 256, (width - 1) as nat).push((v % 256) as u8)
    }
}

/// The two's complement reading of the unsigned value `u` of `width` bytes.
pub open spec fn signed_of(u: nat, width: nat) -> int {
    if u >= byte_radix_pow(width) / 2 {
        u - byte_radix_pow(width)
    } else {
        u as int
    }
}

/// The unsigned value of `width` bytes whose two's complement reading is `i`.
pub open spec fn unsigned_of(i: int, width: nat) -> nat {
    if i < 0 {
        (i + byte_radix_pow(width)) as nat
    } else {
        i as nat
    }
}

pub proof fn lemma_radix_pow_positive(width: nat)
    ensures
        byte_radix_pow(width) >= 1,
    decreases width,
{
    if width > 0 {
        lemma_radix_pow_positive((width - 1) as nat);
    }
}

/// `be_encode` gives exactly `width` bytes.
pub proof fn lemma_be_encode_len(v: nat, width: nat)
    ensures
        be_encode(v, width).len() == width,
    decreases width,
{
    if width > 0 {
        lemma_be_encode_len(v / 256, (width - 1) as nat);
    }
}

/// The value of `n` bytes is below `256^n`.
pub proof fn lemma_be_value_bound(bytes: Seq<u8>)
    ensures
        be_value(bytes) < byte_radix_pow(bytes.len()),
    decreases bytes.len(),
{
    if bytes.len() > 0 {
        lemma_be_value_bound(bytes.drop_last());
    }
}

/// Decoding the bytes of `v` gives `v` back, when `v` fits in `width` bytes.
pub proof fn lemma_be_decode_encode(v: nat, width: nat)
    requires
        v < byte_radix_pow(width),
    ensures
        be_value(be_encode(v, width)) == v,
    decreases width,
{
    if width > 0 {
        let rest = be_encode(v / 256, (width - 1) as nat);
        lemma_be_decode_encode(v / 256, (width - 1) as nat);
        assert(rest.push((v % 256) as u8).drop_last() =~= rest);
    }
}

/// Encoding the value of some bytes gives those bytes back.
pub proof fn lemma_be_encode_decode(bytes: Seq<u8>)
    ensures
        be_encode(be_value(bytes), bytes.len()) == bytes,
    decreases bytes.len(),
{
    if bytes.len() > 0 {
        let init = bytes.drop_last();
        lemma_be_encode_decode(init);
        let v = be_value(bytes);
        assert(v / 256 == be_value(init));
        assert(v % 256 == bytes.last());
        assert(init.push(bytes.last()) =~= bytes);
    }
}

/// The two's complement readings of `width` bytes lie in the signed range.
pub proof fn lemma_signed_unsigned(i: int, width: nat)
    requires
        width > 0,
        -(byte_radix_pow(width) / 2) <= i < byte_radix_pow(width) / 2,
    ensures
        unsigned_of(i, width) < byte_radix_pow(width),
        signed_of(unsigned_of(i, width), width) == i,
{
    lemma_radix_pow_positive((width - 1) as nat);
}

/// The values of `byte_radix_pow` for the integer widths of the codec.
pub proof fn lemma_radix_values()
    ensures
        byte_radix_pow(1) == 0x100,
        byte_radix_pow(2) == 0x10000,
        byte_radix_pow(4) == 0x1_0000_0000,
        byte_radix_pow(8) == 0x1_0000_0000_0000_0000,
{
    reveal_with_fuel(byte_radix_pow, 9);
}

/// Calls `ByteOrder::read_u16` of `BigEndian` on `bytes[at..]`: the first two
/// bytes there, read most significant first.
#[verifier::external_body]
pub fn read_be_u16(bytes: &[u8], at: usize) -> (n: u16)
    requires
        at + 2 <= bytes@.len(),
    ensures
        n == be_value(bytes@.subrange(at as int, at + 2)),
{
    BigEndian::read_u16(&bytes[at..])
}

/// Calls `ByteOrder::read_u32` of `BigEndian` on `bytes[at..]`: the first four
/// bytes there, read most significant first.
#[verifier::external_body]
pub fn read_be_u32(bytes: &[u8], at: usize) -> (n: u32)
    requires
        at + 4 <= bytes@.len(),
    ensures
        n == be_value(bytes@.subrange(at as int, at + 4)),
{
    BigEndian::read_u32(&bytes[at..])
}

/// Calls `ByteOrder::read_u64` of `BigEndian` on `bytes[at..]`: the first eight
/// bytes there, read most significant first.
#[verifier::external_body]
pub fn read_be_u64(bytes: &[u8], at: usize) -> (n: u64)
    requires
        at + 8 <= bytes@.len(),
    ensures
        n == be_value(bytes@.subrange(at as int, at + 8)),
{
    BigEndian::read_u64(&bytes[at..])
}

/// Calls `ByteOrder::read_i16` of `BigEndian` on `bytes[at..]`: the first two
/// bytes there, read most significant first as a two's complement number.
#[verifier::external_body]
pub fn read_be_i16(bytes: &[u8], at: usize) -> (n: i16)
    requires
        at + 2 <= bytes@.len(),
    ensures
        n == signed_of(be_value(bytes@.subrange(at as int, at + 2)), 2),
{
    BigEndian::read_i16(&bytes[at..])
}

/// Calls `ByteOrder::read_i32` of `BigEndian` on `bytes[at..]`: the first four
/// bytes there, read most significant first as a two's complement number.
#[verifier::external_body]
pub fn read_be_i32(bytes: &[u8], at: usize) -> (n: i32)
    requires
        at + 4 <= bytes@.len(),
    ensures
        n == signed_of(be_value(bytes@.subrange(at as int, at + 4)), 4),
{
    BigEndian::read_i32(&bytes[at..])
}

/// Calls `ByteOrder::read_i64` of `BigEndian` on `bytes[at..]`: the first eight
/// bytes there, read most significant first as a two's complement number.
#[verifier::external_body]
pub fn read_be_i64(bytes: &[u8], at: usize) -> (n: i64)
    requires
        at + 8 <= bytes@.len(),
    ensures
        n == signed_of(be_value(bytes@.subrange(at as int, at + 8)), 8),
{
    BigEndian::read_i64(&bytes[at..])
}

/// Calls `ByteOrder::write_u16` of `BigEndian` on a two-byte array: the bytes
/// of `n`, most significant first.
#[verifier::external_body]
pub fn be_bytes_u16(n: u16) -> (out: [u8; 2])
    ensures
        out@ == be_encode(n as nat, 2),
{
    let mut out = [0u8; 2];
    BigEndian::write_u16(&mut out, n);
    out
}

/// Calls `ByteOrder::write_u32` of `BigEndian` on a four-byte array: the bytes
/// of `n`, most significant first.
#[verifier::external_body]
pub fn be_bytes_u32(n: u32) -> (out: [u8; 4])
    ensures
        out@ == be_encode(n as nat, 4),
{
    let mut out = [0u8; 4];
    BigEndian::write_u32(&mut out, n);
    out
}

/// Calls `ByteOrder::write_u64` of `BigEndian` on an eight-byte array: the
/// bytes of `n`, most significant first.
#[verifier::external_body]
pub fn be_bytes_u64(n: u64) -> (out: [u8; 8])
    ensures
        out@ == be_encode(n as nat, 8),
{
    let mut out = [0u8; 8];
    BigEndian::write_u64(&mut out, n);
    out
}

/// Calls `ByteOrder::write_i16` of `BigEndian` on a two-byte array: the two's
/// complement bytes of `n`, most significant first.
#[verifier::external_body]
pub fn be_bytes_i16(n: i16) -> (out: [u8; 2])
    ensures
        out@ == be_encode(unsigned_of(n as int, 2), 2),
{
    let mut out = [0u8; 2];
    BigEndian::write_i16(&mut out, n);
    out
}

/// Calls `ByteOrder::write_i32` of `BigEndian` on a four-byte array: the two's
/// complement bytes of `n`, most significant first.
#[verifier::external_body]
pub fn be_bytes_i32(n: i32) -> (out: [u8; 4])
    ensures
        out@ == be_encode(unsigned_of(n as int, 4), 4),
{
    let mut out = [0u8; 4];
    BigEndian::write_i32(&mut out, n);
    out
}

/// Calls `ByteOrder::write_i64` of `BigEndian` on an eight-byte array: the two's
/// complement bytes of `n`, most significant first.
#[verifier::external_body]
pub fn be_bytes_i64(n: i64) -> (out: [u8; 8])
    ensures
        out@ == be_encode(unsigned_of(n as int, 8), 8),
{
    let mut out = [0u8; 8];
    BigEndian::write_i64(&mut out, n);
    out
}

} // verus!
