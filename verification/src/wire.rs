//! Big-endian fields of the STUN wire format (RFC 5389 Section 6).
//!
//! Reading and writing multi-byte integers goes through the `byteorder`
//! crate; everything above that is verified against the byte-level model
//! given by the spec functions of this module.

use byteorder::{BigEndian, ByteOrder};
use vstd::prelude::*;

verus! {

/// The fixed magic cookie of every STUN message.
pub const STUN_MAGIC_COOKIE: u32 = 0x2112A442;

/// Size in bytes of the STUN message header.
pub const STUN_HEADER_SIZE: usize = 20;

/// Size in bytes of a STUN transaction ID.
pub const TRANSACTION_ID_SIZE: usize = 12;

/// The two bytes of `n`, most significant first.
pub open spec fn be16(n: u16) -> Seq<u8> {
    seq![(n / 256) as u8, (n % 256) as u8]
}

/// The four bytes of `n`, most significant first.
pub open spec fn be32(n: u32) -> Seq<u8> {
    seq![
        (n / 0x1000000) as u8,
        ((n / 0x10000) % 256) as u8,
        ((n / 256) % 256) as u8,
        (n % 256) as u8,
    ]
}

/// The value of two bytes read most significant first.
pub open spec fn read_be16(b: Seq<u8>, at: int) -> u16 {
    (b[at] * 256 + b[at + 1]) as u16
}

/// The value of four bytes read most significant first.
pub open spec fn read_be32(b: Seq<u8>, at: int) -> u32 {
    (b[at] * 0x1000000 + b[at + 1] * 0x10000 + b[at + 2] * 256 + b[at + 3]) as u32
}

/// The 20-byte STUN header: message type, message length, magic cookie
/// and the 12-byte transaction ID.
pub open spec fn stun_header(msg_type: u16, msg_len: u16, txn: Seq<u8>) -> Seq<u8> {
    be16(msg_type) + be16(msg_len) + be32(STUN_MAGIC_COOKIE) + txn
}

/// Reading back the two bytes that `be16` writes gives the number.
pub proof fn lemma_be16_roundtrip(n: u16)
    ensures
        read_be16(be16(n), 0) == n,
{
}

/// Reading back the four bytes that `be32` writes gives the number.
pub proof fn lemma_be32_roundtrip(n: u32)
    ensures
        read_be32(be32(n), 0) == n,
{
    let b = be32(n);
    assert(b[0] * 0x1000000 + b[1] * 0x10000 + b[2] * 256 + b[3] == n) by (nonlinear_arith)
        requires
            b[0] == n / 0x1000000,
            b[1] == (n / 0x10000) % 256,
            b[2] == (n / 256) % 256,
            b[3] == n % 256,
            n < 0x1_0000_0000,
    {
    }
}

/// Reads a big-endian `u16` at `at` with `byteorder::BigEndian::read_u16`,
/// which reads the first two bytes of the slice it is given.
#[verifier::external_body]
fn read_u16_at(buf: &[u8], at: usize) -> (r: u16)
    requires
        at + 2 <= buf@.len(),
    ensures
        r == read_be16(buf@, at as int),
{
    BigEndian::read_u16(&buf[at..])
}

/// Reads a big-endian `u32` at `at` with `byteorder::BigEndian::read_u32`,
/// which reads the first four bytes of the slice it is given.
#[verifier::external_body]
fn read_u32_at(buf: &[u8], at: usize) -> (r: u32)
    requires
        at + 4 <= buf@.len(),
    ensures
        r == read_be32(buf@, at as int),
{
    BigEndian::read_u32(&buf[at..])
}

/// Writes `n` big-endian at `at` with `byteorder::BigEndian::write_u16`,
/// which overwrites the first two bytes of the slice it is given and
/// nothing else.
#[verifier::external_body]
fn write_u16_at(buf: &mut [u8], at: usize, n: u16)
    requires
        at + 2 <= old(buf)@.len(),
    ensures
        final(buf)@ == old(buf)@.update(at as int, be16(n)[0]).update(at + 1, be16(n)[1]),
{
    BigEndian::write_u16(&mut buf[at..], n)
}

/// Writes `n` big-endian at `at` with `byteorder::BigEndian::write_u32`,
/// which overwrites the first four bytes of the slice it is given and
/// nothing else.
#[verifier::external_body]
fn write_u32_at(buf: &mut [u8], at: usize, n: u32)
    requires
        at + 4 <= old(buf)@.len(),
    ensures
        final(buf)@ == old(buf)@.update(at as int, be32(n)[0]).update(at + 1, be32(n)[1]).update(
            at + 2,
            be32(n)[2],
        ).update(at + 3, be32(n)[3]),
{
    BigEndian::write_u32(&mut buf[at..], n)
}

/// Reads the big-endian `u16` that starts at byte `at`.
pub fn get_u16(buf: &[u8], at: usize) -> (r: u16)
    requires
        at + 2 <= buf@.len(),
    ensures
        r == read_be16(buf@, at as int),
{
    read_u16_at(buf, at)
}

/// Reads the big-endian `u32` that starts at byte `at`.
pub fn get_u32(buf: &[u8], at: usize) -> (r: u32)
    requires
        at + 4 <= buf@.len(),
    ensures
        r == read_be32(buf@, at as int),
{
    read_u32_at(buf, at)
}

/// Writes `n` big-endian over bytes `at` and `at + 1`; the rest is kept.
pub fn put_u16(buf: &mut [u8], at: usize, n: u16)
    requires
        at + 2 <= old(buf)@.len(),
    ensures
        final(buf)@.len() == old(buf)@.len(),
        final(buf)@.subrange(at as int, at + 2) == be16(n),
        forall|i: int|
            0 <= i < old(buf)@.len() && !(at <= i < at + 2) ==> #[trigger] final(buf)@[i]
                == old(buf)@[i],
{
    write_u16_at(buf, at, n);
    assert(buf@.subrange(at as int, at + 2) =~= be16(n));
}

/// Writes `n` big-endian over bytes `at` to `at + 3`; the rest is kept.
pub fn put_u32(buf: &mut [u8], at: usize, n: u32)
    requires
        at + 4 <= old(buf)@.len(),
    ensures
        final(buf)@.len() == old(buf)@.len(),
        final(buf)@.subrange(at as int, at + 4) == be32(n),
        forall|i: int|
            0 <= i < old(buf)@.len() && !(at <= i < at + 4) ==> #[trigger] final(buf)@[i]
                == old(buf)@[i],
{
    write_u32_at(buf, at, n);
    assert(buf@.subrange(at as int, at + 4) =~= be32(n));
}

/// Copies `src` over the bytes of `buf` that start at `at`; the rest is kept.
pub fn put_bytes(buf: &mut [u8], at: usize, src: &[u8])
    requires
        at + src@.len() <= old(buf)@.len(),
    ensures
        final(buf)@.len() == old(buf)@.len(),
        final(buf)@.subrange(at as int, at + src@.len()) == src@,
        forall|i: int|
            0 <= i < old(buf)@.len() && !(at <= i < at + src@.len()) ==> #[trigger] final(buf)@[i]
                == old(buf)@[i],
{
    let n = src.len();
    let len = buf.len();
    let mut k: usize = 0;
    while k < n
        invariant
            n == src@.len(),
            len == buf@.len(),
            at + n <= buf@.len(),
            k <= n,
            buf@.len() == old(buf)@.len(),
            forall|j: int| 0 <= j < k ==> #[trigger] buf@[at + j] == src@[j],
            forall|i: int|
                0 <= i < old(buf)@.len() && !(at <= i < at + k) ==> #[trigger] buf@[i]
                    == old(buf)@[i],
        decreases n - k,
    {
        buf[at + k] = src[k];
        k = k + 1;
    }
    assert forall|j: int| 0 <= j < n implies buf@.subrange(at as int, at + n)[j] == src@[j] by {
        assert(buf@[at + j] == src@[j]);
    }
    assert(buf@.subrange(at as int, at + n) =~= src@);
}

} // verus!
