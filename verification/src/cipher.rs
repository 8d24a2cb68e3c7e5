//! The engine of one session: a key to seal what is sent and a key to open
//! what is received, each used under the sequence number that the transport
//! counts.

use crate::error::AuthenticationFailure;
use crate::primitive::{decrypt_packet_length, open_in_place, packet_tag, seal_in_place};
use crate::wire::{
    append_tag, assemble, decode_length, length_field, mask_length, mask_packet, mask_payload,
    opened_packet, outcome_view, packet_length, sealable, sealed_packet, split_packet, wire_len,
    wire_length,
};
use vstd::prelude::*;

verus! {

/// The nominal block size, which is also the number of key bytes that each
/// direction takes from the key schedule.
pub const BSIZE: u32 = 64;

/// Copies the key material of one direction.
fn key_from_slice(material: &[u8]) -> (key: [u8; 64])
    requires
        material@.len() == 64,
    ensures
        key@ == material@,
{
    let mut key: [u8; 64] = [0u8; 64];
    let mut i: usize = 0;
    while i < 64
        invariant
            i <= 64,
            material@.len() == 64,
            forall|j: int| 0 <= j < i ==> key@[j] == material@[j],
        decreases 64 - i,
    {
        key[i] = material[i];
        i += 1;
    }
    assert(key@ =~= material@);
    key
}

/// The `chacha20-poly1305@openssh.com` cipher of one session.
///
/// The engine holds the key material of both directions and nothing else:
/// no call changes it, and what a call does is fixed by the key, the
/// sequence number and the bytes given.
pub struct ChaCha20Poly1305 {
    /// Key material of the outbound direction.
    client_key: [u8; 64],
    /// Key material of the inbound direction.
    server_key: [u8; 64],
}

impl ChaCha20Poly1305 {
    /// The key material under which this engine seals.
    pub closed spec fn sealing_key(&self) -> Seq<u8> {
        self.client_key@
    }

    /// The key material under which this engine opens.
    pub closed spec fn opening_key(&self) -> Seq<u8> {
        self.server_key@
    }

    /// The block size that the framer pads to; this cipher is a stream
    /// cipher, so the number is a convention.
    pub fn bsize(&self) -> (n: u32)
        ensures
            n == 64,
    {
        BSIZE
    }

    /// The bytes of explicit IV on the wire: none, the sequence number is the
    /// nonce.
    pub fn iv_size(&self) -> (n: u32)
        ensures
            n == 0,
    {
        0
    }

    /// An engine that seals under `ck` and opens under `sk`, the two
    /// 64-byte keys that the key schedule gave for the two directions.
    pub fn new(ck: &[u8], sk: &[u8]) -> (engine: ChaCha20Poly1305)
        requires
            ck@.len() == 64,
            sk@.len() == 64,
        ensures
            engine.sealing_key() == ck@,
            engine.opening_key() == sk@,
    {
        ChaCha20Poly1305 { client_key: key_from_slice(ck), server_key: key_from_slice(sk) }
    }

    /// Seals the packet in `buf`, length field first, as packet
    /// `sequence_number` of the outbound stream: the bytes are masked in
    /// place and the tag is put behind them.
    pub fn encrypt(&mut self, sequence_number: u32, buf: &mut Vec<u8>)
        requires
            sealable(old(buf)@),
        ensures
            final(buf)@ == sealed_packet(old(self).sealing_key(), sequence_number, old(buf)@),
            *final(self) == *old(self),
    {
        let tag: [u8; 16] = seal_in_place(&self.client_key, sequence_number, buf);
        assert(buf@ =~= mask_packet(self.client_key@, sequence_number, old(buf)@));
        append_tag(buf, &tag);
    }

    /// Opens `buf` as packet `sequence_number` of the inbound stream. The
    /// length field is recovered anew; unless `buf` is exactly the packet
    /// that it announces and the tag is right, the packet is refused and
    /// nothing of it is handed out. What is handed out is the whole packet,
    /// length field first.
    pub fn decrypt(&mut self, sequence_number: u32, buf: &[u8]) -> (packet: Result<
        Vec<u8>,
        AuthenticationFailure,
    >)
        ensures
            outcome_view(packet) == opened_packet(old(self).opening_key(), sequence_number, buf@),
            *final(self) == *old(self),
    {
        if buf.len() < 4 {
            return Err(AuthenticationFailure);
        }
        let field: [u8; 4] = self.recover_length_field(sequence_number, buf);
        let packet_len: u32 = decode_length(&field);
        if buf.len() as u64 != wire_len(packet_len) {
            return Err(AuthenticationFailure);
        }
        let (sealed, tag) = split_packet(buf, packet_len);
        let opened = open_in_place(&self.server_key, sequence_number, sealed, &tag);
        proof {
            let key = self.server_key@;
            let expected = packet_tag(key, sequence_number, sealed@);
            assert(sealed@ == buf@.subrange(0, buf@.len() - 16));
            assert(tag@ == buf@.subrange(buf@.len() - 16, buf@.len() as int));
            assert(sealed@.subrange(0, 4) =~= buf@.subrange(0, 4));
            if tag@ == expected@ {
                assert(tag =~= expected);
            }
            if opened is Ok {
                assert(opened->Ok_0@ =~= mask_payload(
                    key,
                    sequence_number,
                    sealed@.subrange(4, sealed@.len() as int),
                ));
            }
        }
        assemble(&field, opened)
    }

    /// The payload length that the first four bytes of `buf` announce. The
    /// number is not authenticated: it tells how much to read, no more.
    pub fn packet_len(&mut self, sequence_number: u32, buf: &[u8]) -> (n: u32)
        requires
            buf@.len() >= 4,
        ensures
            n == packet_length(old(self).opening_key(), sequence_number, buf@),
            *final(self) == *old(self),
    {
        let field: [u8; 4] = self.recover_length_field(sequence_number, buf);
        decode_length(&field)
    }

    /// The bytes of the whole packet that the first four bytes of `buf`
    /// begin: length field, payload and tag.
    pub fn data_len(&mut self, sequence_number: u32, buf: &[u8]) -> (n: u64)
        requires
            buf@.len() >= 4,
        ensures
            n == wire_length(old(self).opening_key(), sequence_number, buf@),
            *final(self) == *old(self),
    {
        let packet_len: u32 = self.packet_len(sequence_number, buf);
        wire_len(packet_len)
    }

    /// Recovers the length field at the front of `buf`.
    fn recover_length_field(&self, sequence_number: u32, buf: &[u8]) -> (field: [u8; 4])
        requires
            buf@.len() >= 4,
        ensures
            field@ == mask_length(self.opening_key(), sequence_number, buf@.subrange(0, 4)),
    {
        let field: [u8; 4] = decrypt_packet_length(
            &self.server_key,
            sequence_number,
            length_field(buf),
        );
        assert(field@ =~= mask_length(self.server_key@, sequence_number, buf@.subrange(0, 4)));
        field
    }
}

} // verus!
