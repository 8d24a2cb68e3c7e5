//! What holds of every key, every sequence number and every packet.
//!
//! Each law is proved from the definitions of the wire format alone. What
//! rests on ChaCha20 and Poly1305 being hard to predict or to forge (that
//! another sequence number, another key or a changed payload is caught) is
//! no theorem and is not stated here.

use crate::error::AuthenticationFailure;
use crate::primitive::{length_pad, packet_tag, payload_pad};
use crate::wire::{
    be_u32, is_whole_packet, mask_length, mask_packet, mask_payload, opened_packet, packet_length,
    sealed_packet, well_framed, wire_length,
};
use vstd::prelude::*;

verus! {

/// Masking a length field twice under one key and sequence number gives the
/// field back.
proof fn lemma_mask_length_twice(key: Seq<u8>, sequence_number: u32, field: Seq<u8>)
    ensures
        mask_length(key, sequence_number, mask_length(key, sequence_number, field)) == field,
{
    let once = mask_length(key, sequence_number, field);
    let twice = mask_length(key, sequence_number, once);
    assert forall|i: int| 0 <= i < field.len() implies twice[i] == field[i] by {
        let a: u8 = field[i];
        let b: u8 = length_pad(key, sequence_number)@[i];
        assert((a ^ b) ^ b == a) by (bit_vector);
    }
    assert(twice =~= field);
}

/// Masking a payload twice under one key and sequence number gives the
/// payload back.
proof fn lemma_mask_payload_twice(key: Seq<u8>, sequence_number: u32, body: Seq<u8>)
    ensures
        mask_payload(key, sequence_number, mask_payload(key, sequence_number, body)) == body,
{
    let once = mask_payload(key, sequence_number, body);
    let twice = mask_payload(key, sequence_number, once);
    assert forall|i: int| 0 <= i < body.len() implies twice[i] == body[i] by {
        let a: u8 = body[i];
        let b: u8 = payload_pad(key, sequence_number, i);
        assert((a ^ b) ^ b == a) by (bit_vector);
    }
    assert(twice =~= body);
}

/// Masking a packet twice under one key and sequence number gives the packet
/// back.
proof fn lemma_mask_packet_twice(key: Seq<u8>, sequence_number: u32, packet: Seq<u8>)
    requires
        packet.len() >= 4,
    ensures
        mask_packet(key, sequence_number, mask_packet(key, sequence_number, packet)) == packet,
{
    let field = packet.subrange(0, 4);
    let body = packet.subrange(4, packet.len() as int);
    let masked = mask_packet(key, sequence_number, packet);
    assert(masked.subrange(0, 4) =~= mask_length(key, sequence_number, field));
    assert(masked.subrange(4, masked.len() as int) =~= mask_payload(key, sequence_number, body));
    lemma_mask_length_twice(key, sequence_number, field);
    lemma_mask_payload_twice(key, sequence_number, body);
    assert(field + body =~= packet);
}

/// Round trip: a well-framed packet, sealed under a key and a sequence
/// number, is one whole packet on the wire, and opening it under the same key
/// and sequence number gives exactly the packet that was sealed.
pub proof fn lemma_open_inverts_seal(key: Seq<u8>, sequence_number: u32, packet: Seq<u8>)
    requires
        well_framed(packet),
    ensures
        is_whole_packet(key, sequence_number, sealed_packet(key, sequence_number, packet)),
        opened_packet(key, sequence_number, sealed_packet(key, sequence_number, packet)) == Ok::<
            Seq<u8>,
            AuthenticationFailure,
        >(packet),
{
    let masked = mask_packet(key, sequence_number, packet);
    let wire = sealed_packet(key, sequence_number, packet);
    assert(wire.subrange(0, wire.len() - 16) =~= masked);
    assert(wire.subrange(wire.len() - 16, wire.len() as int) =~= packet_tag(
        key,
        sequence_number,
        masked,
    )@);
    lemma_mask_packet_twice(key, sequence_number, packet);
    lemma_sealed_packet_announces_its_length(key, sequence_number, packet);
}

/// Only sealed packets open: bytes that open under a key and a sequence
/// number are the sealed form, under that key and sequence number, of the
/// very packet that opening them gives, and that packet is well framed.
pub proof fn lemma_only_sealed_packets_open(
    key: Seq<u8>,
    sequence_number: u32,
    wire: Seq<u8>,
    packet: Seq<u8>,
)
    requires
        opened_packet(key, sequence_number, wire) == Ok::<Seq<u8>, AuthenticationFailure>(packet),
    ensures
        well_framed(packet),
        wire == sealed_packet(key, sequence_number, packet),
{
    let sealed = wire.subrange(0, wire.len() - 16);
    let tag = wire.subrange(wire.len() - 16, wire.len() as int);
    assert(packet == mask_packet(key, sequence_number, sealed));
    assert(packet.subrange(0, 4) =~= mask_length(key, sequence_number, sealed.subrange(0, 4)));
    assert(sealed.subrange(0, 4) =~= wire.subrange(0, 4));
    lemma_mask_packet_twice(key, sequence_number, sealed);
    assert(sealed + tag =~= wire);
}

/// Length correctness: the first four bytes of a sealed packet announce,
/// under the same key and sequence number, the payload length that its
/// length field held, and with it the length of the whole sealed packet:
/// twenty bytes more than the payload.
pub proof fn lemma_sealed_packet_announces_its_length(
    key: Seq<u8>,
    sequence_number: u32,
    packet: Seq<u8>,
)
    requires
        well_framed(packet),
    ensures
        packet_length(
            key,
            sequence_number,
            sealed_packet(key, sequence_number, packet).subrange(0, 4),
        ) == packet.len() - 4,
        wire_length(
            key,
            sequence_number,
            sealed_packet(key, sequence_number, packet).subrange(0, 4),
        ) == packet.len() - 4 + 20,
        packet_length(key, sequence_number, sealed_packet(key, sequence_number, packet))
            == packet.len() - 4,
        wire_length(key, sequence_number, sealed_packet(key, sequence_number, packet))
            == sealed_packet(key, sequence_number, packet).len(),
{
    let field = packet.subrange(0, 4);
    let wire = sealed_packet(key, sequence_number, packet);
    assert(wire.subrange(0, 4) =~= mask_length(key, sequence_number, field));
    assert(wire.subrange(0, 4).subrange(0, 4) =~= wire.subrange(0, 4));
    lemma_mask_length_twice(key, sequence_number, field);
}

/// A changed tag is caught: bytes of the length of a sealed packet that agree
/// with it in all but the tag, and differ from it there, do not open under
/// the same key and sequence number.
pub proof fn lemma_changed_tag_is_rejected(
    key: Seq<u8>,
    sequence_number: u32,
    packet: Seq<u8>,
    wire: Seq<u8>,
)
    requires
        packet.len() >= 4,
        wire.len() == sealed_packet(key, sequence_number, packet).len(),
        wire.subrange(0, wire.len() - 16) == sealed_packet(key, sequence_number, packet).subrange(
            0,
            wire.len() - 16,
        ),
        wire != sealed_packet(key, sequence_number, packet),
    ensures
        opened_packet(key, sequence_number, wire) == Err::<Seq<u8>, AuthenticationFailure>(
            AuthenticationFailure,
        ),
{
    let masked = mask_packet(key, sequence_number, packet);
    let sealed = sealed_packet(key, sequence_number, packet);
    let tag = packet_tag(key, sequence_number, masked)@;
    assert(sealed.subrange(0, sealed.len() - 16) =~= masked);
    if wire.subrange(wire.len() - 16, wire.len() as int) == tag {
        assert(wire =~= sealed);
    }
}

/// Four bytes spell one number only.
proof fn lemma_be_u32_tells_fields_apart(a: Seq<u8>, b: Seq<u8>)
    requires
        a.len() == 4,
        b.len() == 4,
        be_u32(a) == be_u32(b),
    ensures
        a == b,
{
    assert(a[0] == b[0] && a[1] == b[1] && a[2] == b[2] && a[3] == b[3]);
    assert(a =~= b);
}

/// A changed length field is caught: bytes of the length of a sealed,
/// well-framed packet that differ from it within the first four do not open
/// under the same key and sequence number, whatever else they hold.
pub proof fn lemma_changed_length_field_is_rejected(
    key: Seq<u8>,
    sequence_number: u32,
    packet: Seq<u8>,
    wire: Seq<u8>,
)
    requires
        well_framed(packet),
        wire.len() == sealed_packet(key, sequence_number, packet).len(),
        wire.subrange(0, 4) != sealed_packet(key, sequence_number, packet).subrange(0, 4),
    ensures
        opened_packet(key, sequence_number, wire) == Err::<Seq<u8>, AuthenticationFailure>(
            AuthenticationFailure,
        ),
{
    let sealed = sealed_packet(key, sequence_number, packet);
    let theirs = mask_length(key, sequence_number, wire.subrange(0, 4));
    let ours = mask_length(key, sequence_number, sealed.subrange(0, 4));
    lemma_sealed_packet_announces_its_length(key, sequence_number, packet);
    if be_u32(theirs) == be_u32(ours) {
        lemma_be_u32_tells_fields_apart(theirs, ours);
        lemma_mask_length_twice(key, sequence_number, wire.subrange(0, 4));
        lemma_mask_length_twice(key, sequence_number, sealed.subrange(0, 4));
    }
}

} // verus!
