//! Definitions shared by requests and responses, and the little-endian
//! integers every packet is made of.

use vstd::prelude::*;

verus! {

/// The largest packet that travels to or from the window manager, in bytes.
pub const MAX_PACKET_SIZE: usize = 256;

/// Why a packet, a request or a response, could not be parsed.
#[derive(Debug, Clone, Copy, PartialEq, Eq, Structural)]
pub enum PacketParseErr {
    /// The packet does not start with a known magic number.
    InvalidMagic,
    /// The discriminant of the packet's kind is not a known one.
    InvalidPacketKind,
    /// The packet ends before its last field does.
    InvalidPacketSize,
    /// A field holds a value that its type does not have.
    InvalidPacketData,
}

/// The two bytes of `v`, low byte first.
#[verifier::opaque]
pub open spec fn le_bytes_u16(v: u16) -> Seq<u8> {
    seq![(v % 0x100) as u8, (v / 0x100) as u8]
}

/// The four bytes of `v`, low byte first.
#[verifier::opaque]
pub open spec fn le_bytes_u32(v: u32) -> Seq<u8> {
    seq![
        (v % 0x100) as u8,
        (v / 0x100 % 0x100) as u8,
        (v / 0x1_0000 % 0x100) as u8,
        (v / 0x100_0000) as u8,
    ]
}

/// The eight bytes of `v`, low byte first.
#[verifier::opaque]
pub open spec fn le_bytes_u64(v: u64) -> Seq<u8> {
    le_bytes_u32((v % 0x1_0000_0000) as u32) + le_bytes_u32((v / 0x1_0000_0000) as u32)
}

/// The number whose little-endian bytes are `bytes[at]` and `bytes[at + 1]`.
pub open spec fn le_u16_at(bytes: Seq<u8>, at: int) -> u16 {
    (bytes[at] + bytes[at + 1] * 0x100) as u16
}

/// The number whose little-endian bytes are the four bytes from `bytes[at]`.
pub open spec fn le_u32_at(bytes: Seq<u8>, at: int) -> u32 {
    (bytes[at] + bytes[at + 1] * 0x100 + bytes[at + 2] * 0x1_0000 + bytes[at + 3] * 0x100_0000) as u32
}

/// The number whose little-endian bytes are the eight bytes from `bytes[at]`.
pub open spec fn le_u64_at(bytes: Seq<u8>, at: int) -> u64 {
    (le_u32_at(bytes, at) + le_u32_at(bytes, at + 4) * 0x1_0000_0000) as u64
}

/// A 16-bit number has two bytes, and they read back as the number.
pub proof fn lemma_le_bytes_u16(v: u16)
    ensures
        le_bytes_u16(v).len() == 2,
        le_u16_at(le_bytes_u16(v), 0) == v,
{
    reveal(le_bytes_u16);
}

/// A 32-bit number has four bytes, and they read back as the number.
pub proof fn lemma_le_bytes_u32(v: u32)
    ensures
        le_bytes_u32(v).len() == 4,
        le_u32_at(le_bytes_u32(v), 0) == v,
{
    reveal(le_bytes_u32);
}

/// A 64-bit number has eight bytes, and they read back as the number.
pub proof fn lemma_le_bytes_u64(v: u64)
    ensures
        le_bytes_u64(v).len() == 8,
        le_u64_at(le_bytes_u64(v), 0) == v,
{
    reveal(le_bytes_u64);
    let low = (v % 0x1_0000_0000) as u32;
    let high = (v / 0x1_0000_0000) as u32;
    lemma_le_bytes_u32(low);
    lemma_le_bytes_u32(high);
    let all = le_bytes_u64(v);
    assert(all.subrange(0, 4) =~= le_bytes_u32(low));
    assert(all.subrange(4, 8) =~= le_bytes_u32(high));
    lemma_le_u32_at(all, 0, low);
    lemma_le_u32_at(all, 4, high);
}

/// Where the two bytes from `bytes[at]` are the bytes of `v`, reading there
/// gives `v`.
pub proof fn lemma_le_u16_at(bytes: Seq<u8>, at: int, v: u16)
    requires
        0 <= at,
        at + 2 <= bytes.len(),
        bytes.subrange(at, at + 2) == le_bytes_u16(v),
    ensures
        le_u16_at(bytes, at) == v,
{
    lemma_le_bytes_u16(v);
    let part = bytes.subrange(at, at + 2);
    assert(bytes[at] == part[0]);
    assert(bytes[at + 1] == part[1]);
}

/// Where the four bytes from `bytes[at]` are the bytes of `v`, reading there
/// gives `v`.
pub proof fn lemma_le_u32_at(bytes: Seq<u8>, at: int, v: u32)
    requires
        0 <= at,
        at + 4 <= bytes.len(),
        bytes.subrange(at, at + 4) == le_bytes_u32(v),
    ensures
        le_u32_at(bytes, at) == v,
{
    lemma_le_bytes_u32(v);
    let part = bytes.subrange(at, at + 4);
    assert(bytes[at] == part[0]);
    assert(bytes[at + 1] == part[1]);
    assert(bytes[at + 2] == part[2]);
    assert(bytes[at + 3] == part[3]);
}

/// Where the eight bytes from `bytes[at]` are the bytes of `v`, reading
/// there gives `v`.
pub proof fn lemma_le_u64_at(bytes: Seq<u8>, at: int, v: u64)
    requires
        0 <= at,
        at + 8 <= bytes.len(),
        bytes.subrange(at, at + 8) == le_bytes_u64(v),
    ensures
        le_u64_at(bytes, at) == v,
{
    lemma_le_bytes_u64(v);
    let part = bytes.subrange(at, at + 8);
    assert(bytes[at] == part[0]);
    assert(bytes[at + 1] == part[1]);
    assert(bytes[at + 2] == part[2]);
    assert(bytes[at + 3] == part[3]);
    assert(bytes[at + 4] == part[4]);
    assert(bytes[at + 5] == part[5]);
    assert(bytes[at + 6] == part[6]);
    assert(bytes[at + 7] == part[7]);
}

/// The two bytes from `bytes[at]` are the bytes of the number that they
/// read as.
pub proof fn lemma_le_u16_back(bytes: Seq<u8>, at: int)
    requires
        0 <= at,
        at + 2 <= bytes.len(),
    ensures
        le_bytes_u16(le_u16_at(bytes, at)) == bytes.subrange(at, at + 2),
{
    reveal(le_bytes_u16);
    assert(le_bytes_u16(le_u16_at(bytes, at)) =~= bytes.subrange(at, at + 2));
}

/// The four bytes from `bytes[at]` are the bytes of the number that they
/// read as.
pub proof fn lemma_le_u32_back(bytes: Seq<u8>, at: int)
    requires
        0 <= at,
        at + 4 <= bytes.len(),
    ensures
        le_bytes_u32(le_u32_at(bytes, at)) == bytes.subrange(at, at + 4),
{
    reveal(le_bytes_u32);
    assert(le_bytes_u32(le_u32_at(bytes, at)) =~= bytes.subrange(at, at + 4));
}

/// The eight bytes from `bytes[at]` are the bytes of the number that they
/// read as.
pub proof fn lemma_le_u64_back(bytes: Seq<u8>, at: int)
    requires
        0 <= at,
        at + 8 <= bytes.len(),
    ensures
        le_bytes_u64(le_u64_at(bytes, at)) == bytes.subrange(at, at + 8),
{
    reveal(le_bytes_u64);
    let v = le_u64_at(bytes, at);
    let low = le_u32_at(bytes, at);
    let high = le_u32_at(bytes, at + 4);
    assert(v == low + high * 0x1_0000_0000);
    assert(0x1_0000_0000 * (high as int) == high * 0x1_0000_0000);
    vstd::arithmetic::div_mod::lemma_fundamental_div_mod_converse(
        v as int,
        0x1_0000_0000,
        high as int,
        low as int,
    );
    assert((v % 0x1_0000_0000) as u32 == low);
    assert((v / 0x1_0000_0000) as u32 == high);
    lemma_le_u32_back(bytes, at);
    lemma_le_u32_back(bytes, at + 4);
    assert(bytes.subrange(at, at + 4) + bytes.subrange(at + 4, at + 8) =~= bytes.subrange(
        at,
        at + 8,
    ));
}

/// Appends the two little-endian bytes of `v`.
pub fn push_u16(out: &mut Vec<u8>, v: u16)
    ensures
        final(out)@ == old(out)@ + le_bytes_u16(v),
{
    out.push((v % 0x100) as u8);
    out.push((v / 0x100) as u8);
    proof {
        reveal(le_bytes_u16);
        assert(out@ =~= old(out)@ + le_bytes_u16(v));
    }
}

/// Appends the four little-endian bytes of `v`.
pub fn push_u32(out: &mut Vec<u8>, v: u32)
    ensures
        final(out)@ == old(out)@ + le_bytes_u32(v),
{
    out.push((v % 0x100) as u8);
    out.push((v / 0x100 % 0x100) as u8);
    out.push((v / 0x1_0000 % 0x100) as u8);
    out.push((v / 0x100_0000) as u8);
    proof {
        reveal(le_bytes_u32);
        assert(out@ =~= old(out)@ + le_bytes_u32(v));
    }
}

/// Appends the eight little-endian bytes of `v`.
pub fn push_u64(out: &mut Vec<u8>, v: u64)
    ensures
        final(out)@ == old(out)@ + le_bytes_u64(v),
{
    push_u32(out, (v % 0x1_0000_0000) as u32);
    push_u32(out, (v / 0x1_0000_0000) as u32);
    proof {
        reveal(le_bytes_u64);
        assert(out@ =~= old(out)@ + le_bytes_u64(v));
    }
}

/// Reads the 16-bit number that starts at `bytes[at]`; `None` exactly when
/// the slice ends before the number does.
pub fn read_u16(bytes: &[u8], at: usize) -> (v: Option<u16>)
    ensures
        v == if at + 2 <= bytes@.len() {
            Some(le_u16_at(bytes@, at as int))
        } else {
            None
        },
{
    if bytes.len() < 2 || at > bytes.len() - 2 {
        return None;
    }
    Some(bytes[at] as u16 + bytes[at + 1] as u16 * 0x100)
}

/// Reads the 32-bit number that starts at `bytes[at]`; `None` exactly when
/// the slice ends before the number does.
pub fn read_u32(bytes: &[u8], at: usize) -> (v: Option<u32>)
    ensures
        v == if at + 4 <= bytes@.len() {
            Some(le_u32_at(bytes@, at as int))
        } else {
            None
        },
{
    if bytes.len() < 4 || at > bytes.len() - 4 {
        return None;
    }
    Some(
        bytes[at] as u32 + bytes[at + 1] as u32 * 0x100 + bytes[at + 2] as u32 * 0x1_0000
            + bytes[at + 3] as u32 * 0x100_0000,
    )
}

/// Reads the 64-bit number that starts at `bytes[at]`; `None` exactly when
/// the slice ends before the number does.
pub fn read_u64(bytes: &[u8], at: usize) -> (v: Option<u64>)
    ensures
        v == if at + 8 <= bytes@.len() {
            Some(le_u64_at(bytes@, at as int))
        } else {
            None
        },
{
    if bytes.len() < 8 || at > bytes.len() - 8 {
        return None;
    }
    let low = read_u32(bytes, at);
    let high = read_u32(bytes, at + 4);
    match (low, high) {
        (Some(low), Some(high)) => Some(low as u64 + high as u64 * 0x1_0000_0000),
        _ => None,
    }
}

/// The 16-bit number that starts at `bytes[at]`.
pub(crate) fn u16_at(bytes: &[u8], at: usize) -> (v: u16)
    requires
        at + 2 <= bytes@.len(),
    ensures
        v == le_u16_at(bytes@, at as int),
{
    bytes[at] as u16 + bytes[at + 1] as u16 * 0x100
}

/// The 32-bit number that starts at `bytes[at]`.
pub(crate) fn u32_at(bytes: &[u8], at: usize) -> (v: u32)
    requires
        at + 4 <= bytes@.len(),
    ensures
        v == le_u32_at(bytes@, at as int),
{
    bytes[at] as u32 + bytes[at + 1] as u32 * 0x100 + bytes[at + 2] as u32 * 0x1_0000 + bytes[at
        + 3] as u32 * 0x100_0000
}

/// The 64-bit number that starts at `bytes[at]`.
pub(crate) fn u64_at(bytes: &[u8], at: usize) -> (v: u64)
    requires
        at + 8 <= bytes@.len(),
    ensures
        v == le_u64_at(bytes@, at as int),
{
    let len = bytes.len();
    assert(at + 8 <= len);
    u32_at(bytes, at) as u64 + u32_at(bytes, at + 4) as u64 * 0x1_0000_0000
}

/// Copies an encoded packet into a buffer of the full packet size, zeroes
/// after it, and returns the buffer with the packet's length.
pub fn frame(encoded: &Vec<u8>) -> (out: ([u8; MAX_PACKET_SIZE], usize))
    requires
        encoded@.len() <= MAX_PACKET_SIZE,
    ensures
        out.1 == encoded@.len(),
        out.0@.subrange(0, out.1 as int) == encoded@,
        forall|i: int| out.1 <= i < MAX_PACKET_SIZE ==> out.0@[i] == 0,
{
    let mut dst = [0u8; MAX_PACKET_SIZE];
    let len = encoded.len();
    let mut i: usize = 0;
    while i < len
        invariant
            len == encoded@.len(),
            len <= MAX_PACKET_SIZE,
            i <= len,
            forall|j: int| 0 <= j < i ==> dst@[j] == encoded@[j],
            forall|j: int| i <= j < MAX_PACKET_SIZE ==> dst@[j] == 0,
        decreases len - i,
    {
        dst[i] = encoded[i];
        i += 1;
    }
    assert(dst@.subrange(0, len as int) =~= encoded@);
    (dst, len)
}

} // verus!
