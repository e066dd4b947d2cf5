//! The wire format: sentinel, little-endian length, payload.

use vstd::prelude::*;

verus! {

/// A marker which appears only rarely in stream, used to catch frame start.
pub const SENTINEL: u8 = 0xFF;

/// The longest payload that the two-byte length field can announce.
pub const MAX_FRAME_LEN: usize = 65535;

/// The two length bytes of a payload of `n` bytes, low byte first.
pub open spec fn length_bytes(n: nat) -> Seq<u8>
    recommends
        n <= MAX_FRAME_LEN,
{
    seq![(n % 256) as u8, (n / 256) as u8]
}

/// The payload length that the two length bytes `lo`, `hi` announce.
pub open spec fn length_value(lo: u8, hi: u8) -> nat {
    (lo + 256 * hi) as nat
}

/// A frame as it travels: sentinel, length, payload, with nothing after it.
pub open spec fn frame_image(payload: Seq<u8>) -> Seq<u8>
    recommends
        payload.len() <= MAX_FRAME_LEN,
{
    seq![SENTINEL] + length_bytes(payload.len()) + payload
}

/// Little-endian encoding of a frame length.
///
/// Calls `byteorder::LittleEndian::write_u16` on a two-byte buffer. Trusted:
/// the buffer then holds the low byte of `n` followed by its high byte.
#[verifier::external_body]
pub(crate) fn encode_length(n: u16) -> (bytes: [u8; 2])
    ensures
        bytes@ == length_bytes(n as nat),
{
    let mut buf = [0u8; 2];
    <byteorder::LittleEndian as byteorder::ByteOrder>::write_u16(&mut buf, n);
    buf
}

/// Little-endian decoding of a frame length.
///
/// Calls `byteorder::LittleEndian::read_u16` on the two header bytes.
/// Trusted: the result is the first byte plus 256 times the second.
#[verifier::external_body]
pub(crate) fn decode_length(bytes: &[u8; 2]) -> (n: u16)
    ensures
        n as nat == length_value(bytes[0], bytes[1]),
{
    <byteorder::LittleEndian as byteorder::ByteOrder>::read_u16(bytes)
}

/// Encoding a length and decoding it again gives the length back.
pub proof fn lemma_length_round_trip(n: nat)
    requires
        n <= MAX_FRAME_LEN,
    ensures
        length_bytes(n).len() == 2,
        length_value(length_bytes(n)[0], length_bytes(n)[1]) == n,
{
}

} // verus!
