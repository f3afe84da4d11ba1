//! Little-endian integers, appended to a byte buffer.

use vstd::prelude::*;
use byteorder::{ByteOrder, LittleEndian};

verus! {

/// The two bytes of `n`, the low one first (`0 <= n < 65536`).
pub open spec fn le_u16(n: int) -> Seq<u8> {
    seq![(n % 256) as u8, (n / 256 % 256) as u8]
}

/// The four bytes of `n`, the lowest first (`0 <= n < 2^32`).
pub open spec fn le_u32(n: int) -> Seq<u8> {
    seq![
        (n % 256) as u8,
        (n / 256 % 256) as u8,
        (n / 65536 % 256) as u8,
        (n / 16777216 % 256) as u8,
    ]
}

/// The four bytes of the two's complement of `n`, the lowest first.
pub open spec fn le_i32(n: int) -> Seq<u8> {
    le_u32(
        if n < 0 {
            n + 0x1_0000_0000
        } else {
            n
        },
    )
}

/// Calls `byteorder::LittleEndian::write_u16` on a buffer of two bytes. The
/// contract claims that it stores the low byte of `n` first and the high
/// byte second.
#[verifier::external_body]
fn u16_le_bytes(n: u16) -> (bytes: [u8; 2])
    ensures
        bytes@ == le_u16(n as int),
{
    let mut buf = [0u8; 2];
    LittleEndian::write_u16(&mut buf, n);
    buf
}

/// Calls `byteorder::LittleEndian::write_u32` on a buffer of four bytes.
/// The contract claims that it stores the four bytes of `n` from the lowest
/// to the highest.
#[verifier::external_body]
fn u32_le_bytes(n: u32) -> (bytes: [u8; 4])
    ensures
        bytes@ == le_u32(n as int),
{
    let mut buf = [0u8; 4];
    LittleEndian::write_u32(&mut buf, n);
    buf
}

/// Calls `byteorder::LittleEndian::write_i32` on a buffer of four bytes.
/// The contract claims that it stores the four bytes of the two's
/// complement of `n` from the lowest to the highest.
#[verifier::external_body]
fn i32_le_bytes(n: i32) -> (bytes: [u8; 4])
    ensures
        bytes@ == le_i32(n as int),
{
    let mut buf = [0u8; 4];
    LittleEndian::write_i32(&mut buf, n);
    buf
}

/// Appends `bytes` to `out`.
pub fn write_bytes(out: &mut Vec<u8>, bytes: &[u8])
    ensures
        final(out)@ == old(out)@ + bytes@,
{
    let mut i: usize = 0;
    while i < bytes.len()
        invariant
            i <= bytes@.len(),
            out@ == old(out)@ + bytes@.take(i as int),
        decreases bytes@.len() - i,
    {
        out.push(bytes[i]);
        assert(out@ =~= old(out)@ + bytes@.take(i + 1));
        i += 1;
    }
    assert(bytes@.take(bytes@.len() as int) =~= bytes@);
}

/// Appends one byte to `out`.
pub fn write_u8(out: &mut Vec<u8>, n: u8)
    ensures
        final(out)@ == old(out)@ + seq![n],
{
    out.push(n);
    assert(out@ =~= old(out)@ + seq![n]);
}

/// Appends `n` to `out`, the low byte first.
pub fn write_u16(out: &mut Vec<u8>, n: u16)
    ensures
        final(out)@ == old(out)@ + le_u16(n as int),
{
    let bytes = u16_le_bytes(n);
    write_bytes(out, bytes.as_slice());
}

/// Appends `n` to `out`, the lowest byte first.
pub fn write_u32(out: &mut Vec<u8>, n: u32)
    ensures
        final(out)@ == old(out)@ + le_u32(n as int),
{
    let bytes = u32_le_bytes(n);
    write_bytes(out, bytes.as_slice());
}

/// Appends the two's complement of `n` to `out`, the lowest byte first.
pub fn write_i32(out: &mut Vec<u8>, n: i32)
    ensures
        final(out)@ == old(out)@ + le_i32(n as int),
{
    let bytes = i32_le_bytes(n);
    write_bytes(out, bytes.as_slice());
}

} // verus!
