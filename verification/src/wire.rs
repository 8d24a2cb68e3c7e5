//! One packet on the wire: `[4-byte length][N-byte payload][16-byte tag]`.
//!
//! The spec functions say what sealing and opening mean over byte sequences;
//! the executable functions are the steps that need no key.

use crate::error::AuthenticationFailure;
use crate::primitive::{length_pad, packet_tag, payload_pad, MAX_BODY_LEN};
use ring::error::Unspecified;
use vstd::prelude::*;

verus! {

/// Bytes of the length field.
pub const PACKET_LENGTH_LEN: usize = 4;

/// Bytes of the tag.
pub const TAG_LEN: usize = 16;

/// Bytes of the key material of one direction.
pub const KEY_LEN: usize = 64;

/// The number that four bytes spell, most significant byte first.
pub open spec fn be_u32(bytes: Seq<u8>) -> int {
    bytes[0] * 0x100_0000 + bytes[1] * 0x1_0000 + bytes[2] * 0x100 + bytes[3]
}

/// `field` xored with the length keystream; it hides and recovers alike.
pub open spec fn mask_length(key: Seq<u8>, sequence_number: u32, field: Seq<u8>) -> Seq<u8> {
    Seq::new(field.len(), |i: int| field[i] ^ length_pad(key, sequence_number)@[i])
}

/// `body` xored with the payload keystream; it hides and recovers alike.
pub open spec fn mask_payload(key: Seq<u8>, sequence_number: u32, body: Seq<u8>) -> Seq<u8> {
    Seq::new(body.len(), |i: int| body[i] ^ payload_pad(key, sequence_number, i))
}

/// Length field and payload of `packet`, each under its own keystream.
pub open spec fn mask_packet(key: Seq<u8>, sequence_number: u32, packet: Seq<u8>) -> Seq<u8> {
    mask_length(key, sequence_number, packet.subrange(0, 4)) + mask_payload(
        key,
        sequence_number,
        packet.subrange(4, packet.len() as int),
    )
}

/// A packet that can be sealed: it has a length field, and what follows is
/// within the cipher's input limit.
pub open spec fn sealable(packet: Seq<u8>) -> bool {
    4 <= packet.len() <= 4 + MAX_BODY_LEN
}

/// A packet whose length field counts the bytes that follow it.
pub open spec fn well_framed(packet: Seq<u8>) -> bool {
    packet.len() >= 4 && be_u32(packet.subrange(0, 4)) == packet.len() - 4
}

/// What `packet` becomes on the wire: its masked bytes, then their tag.
pub open spec fn sealed_packet(key: Seq<u8>, sequence_number: u32, packet: Seq<u8>) -> Seq<u8> {
    let sealed = mask_packet(key, sequence_number, packet);
    sealed + packet_tag(key, sequence_number, sealed)@
}

/// The payload length that the first four bytes of `wire` announce.
pub open spec fn packet_length(key: Seq<u8>, sequence_number: u32, wire: Seq<u8>) -> int {
    be_u32(mask_length(key, sequence_number, wire.subrange(0, 4)))
}

/// The bytes of the whole packet that the first four bytes of `wire` begin.
pub open spec fn wire_length(key: Seq<u8>, sequence_number: u32, wire: Seq<u8>) -> int {
    packet_length(key, sequence_number, wire) + 4 + 16
}

/// `wire` is one packet, no byte more or less.
pub open spec fn is_whole_packet(key: Seq<u8>, sequence_number: u32, wire: Seq<u8>) -> bool {
    wire.len() >= 4 && wire.len() == wire_length(key, sequence_number, wire)
}

/// What opening `wire` gives: the packet, length field first, if `wire` is
/// one whole packet and its last sixteen bytes are the tag of the bytes
/// before them; the failure in every other case.
pub open spec fn opened_packet(key: Seq<u8>, sequence_number: u32, wire: Seq<u8>) -> Result<
    Seq<u8>,
    AuthenticationFailure,
> {
    let sealed = wire.subrange(0, wire.len() - 16);
    let tag = wire.subrange(wire.len() - 16, wire.len() as int);
    if is_whole_packet(key, sequence_number, wire) && tag == packet_tag(
        key,
        sequence_number,
        sealed,
    )@ {
        Ok(mask_packet(key, sequence_number, sealed))
    } else {
        Err(AuthenticationFailure)
    }
}

/// An outcome of opening, its packet taken as a byte sequence.
pub open spec fn outcome_view(outcome: Result<Vec<u8>, AuthenticationFailure>) -> Result<
    Seq<u8>,
    AuthenticationFailure,
> {
    match outcome {
        Ok(packet) => Ok(packet@),
        Err(failure) => Err(failure),
    }
}

/// Copies the length field out of the front of `buf`.
pub fn length_field(buf: &[u8]) -> (field: [u8; 4])
    requires
        buf@.len() >= 4,
    ensures
        field@ == buf@.subrange(0, 4),
{
    let field: [u8; 4] = [buf[0], buf[1], buf[2], buf[3]];
    assert(field@ =~= buf@.subrange(0, 4));
    field
}

/// Reads a recovered length field as a number.
pub fn decode_length(field: &[u8; 4]) -> (n: u32)
    ensures
        n == be_u32(field@),
{
    let b0: u32 = field[0] as u32;
    let b1: u32 = field[1] as u32;
    let b2: u32 = field[2] as u32;
    let b3: u32 = field[3] as u32;
    b0 * 0x100_0000 + b1 * 0x1_0000 + b2 * 0x100 + b3
}

/// The bytes that a packet takes on the wire when its length field says
/// `packet_len`.
pub fn wire_len(packet_len: u32) -> (n: u64)
    ensures
        n == packet_len + 4 + 16,
{
    packet_len as u64 + PACKET_LENGTH_LEN as u64 + TAG_LEN as u64
}

/// Parts a whole packet into its sealed bytes and its tag.
pub fn split_packet(buf: &[u8], packet_len: u32) -> (parts: (&[u8], [u8; 16]))
    requires
        buf@.len() == packet_len + 4 + 16,
    ensures
        parts.0@ == buf@.subrange(0, packet_len + 4),
        parts.1@ == buf@.subrange(packet_len + 4, buf@.len() as int),
{
    let mid: usize = buf.len() - TAG_LEN;
    let (sealed, rest) = buf.split_at(mid);
    let mut tag: [u8; 16] = [0u8; 16];
    let mut i: usize = 0;
    while i < 16
        invariant
            i <= 16,
            rest@.len() == 16,
            forall|j: int| 0 <= j < i ==> tag@[j] == rest@[j],
        decreases 16 - i,
    {
        tag[i] = rest[i];
        i += 1;
    }
    assert(tag@ =~= rest@);
    (sealed, tag)
}

/// Puts the tag behind the sealed bytes.
pub fn append_tag(buf: &mut Vec<u8>, tag: &[u8; 16])
    ensures
        final(buf)@ == old(buf)@ + tag@,
{
    buf.extend_from_slice(tag.as_slice());
    assert(buf@ =~= old(buf)@ + tag@);
}

/// Builds what opening returns from the recovered length field and what the
/// cipher made of the rest: the whole packet, or nothing of it.
pub fn assemble(field: &[u8; 4], opened: Result<Vec<u8>, Unspecified>) -> (packet: Result<
    Vec<u8>,
    AuthenticationFailure,
>)
    ensures
        outcome_view(packet) == match opened {
            Ok(body) => Ok::<Seq<u8>, AuthenticationFailure>(field@ + body@),
            Err(_) => Err::<Seq<u8>, AuthenticationFailure>(AuthenticationFailure),
        },
{
    match opened {
        Ok(body) => {
            let mut whole: Vec<u8> = Vec::new();
            whole.extend_from_slice(field.as_slice());
            whole.extend_from_slice(body.as_slice());
            assert(whole@ =~= field@ + body@);
            Ok(whole)
        },
        Err(_) => Err(AuthenticationFailure),
    }
}

} // verus!
