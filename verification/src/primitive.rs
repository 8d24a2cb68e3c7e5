//! The boundary to *ring*: what this library takes on trust.
//!
//! Nothing in this file is proved. Each contract restates what the source of
//! `ring::aead::chacha20_poly1305_openssh` shows, over three names for the
//! values that only ChaCha20 and Poly1305 can compute: the keystream that
//! hides the length field, the keystream that hides the rest, and the tag.
//! All three are fixed by key material and sequence number alone, and sealing
//! and opening derive them in the same way, so the contracts of both speak of
//! the same names. Nothing is said of what the names are on any given key.
//!
//! A *ring* key is made anew from the key material for each call: the
//! contracts can then speak of the material, which a *ring* key hides.

use ring::aead::chacha20_poly1305_openssh::{OpeningKey, SealingKey};
use ring::error::Unspecified;
use vstd::prelude::*;

verus! {

/// The most bytes that may follow the length field of one packet: the input
/// limit of ChaCha20-Poly1305, `(2^32 - 1)` blocks of 64 bytes.
pub const MAX_BODY_LEN: u64 = 274_877_906_880;

/// The four keystream bytes that hide the length field of packet
/// `sequence_number` under `key`.
pub uninterp spec fn length_pad(key: Seq<u8>, sequence_number: u32) -> [u8; 4];

/// Byte `i` of the keystream that hides what follows the length field of
/// packet `sequence_number` under `key`.
pub uninterp spec fn payload_pad(key: Seq<u8>, sequence_number: u32, i: int) -> u8;

/// The Poly1305 tag of the sealed bytes `sealed` of packet `sequence_number`
/// under `key`.
pub uninterp spec fn packet_tag(key: Seq<u8>, sequence_number: u32, sealed: Seq<u8>) -> [u8; 16];

/// `ring::error::Unspecified`, the error of `OpeningKey::open_in_place`.
#[verifier::external_type_specification]
#[verifier::external_body]
pub struct ExUnspecified(Unspecified);

/// `SealingKey::seal_in_place` under a key made by `SealingKey::new`.
///
/// Trusted: the buffer keeps its length; its first four bytes are xored with
/// the length keystream and the rest with the payload keystream; the tag
/// returned is the tag of the bytes then in the buffer. *ring* panics on a
/// buffer without a length field and on one over its input limit: `requires`
/// leaves both out.
#[verifier::external_body]
pub(crate) fn seal_in_place(
    key: &[u8; 64],
    sequence_number: u32,
    in_out: &mut Vec<u8>,
) -> (tag: [u8; 16])
    requires
        4 <= old(in_out)@.len() <= 4 + MAX_BODY_LEN,
    ensures
        final(in_out)@.len() == old(in_out)@.len(),
        forall|i: int|
            0 <= i < 4 ==> #[trigger] final(in_out)@[i] == old(in_out)@[i] ^ length_pad(
                key@,
                sequence_number,
            )@[i],
        forall|i: int|
            4 <= i < old(in_out)@.len() ==> #[trigger] final(in_out)@[i] == old(in_out)@[i]
                ^ payload_pad(key@, sequence_number, i - 4),
        tag == packet_tag(key@, sequence_number, final(in_out)@),
{
    let mut tag = [0u8; 16];
    SealingKey::new(key).seal_in_place(sequence_number, in_out.as_mut_slice(), &mut tag);
    tag
}

/// `OpeningKey::decrypt_packet_length` under a key made by `OpeningKey::new`.
///
/// Trusted: the four bytes returned are the four bytes given, xored with the
/// length keystream of that key and sequence number. It panics on no input.
#[verifier::external_body]
pub(crate) fn decrypt_packet_length(
    key: &[u8; 64],
    sequence_number: u32,
    encrypted: [u8; 4],
) -> (length: [u8; 4])
    ensures
        forall|i: int|
            0 <= i < 4 ==> #[trigger] length@[i] == encrypted@[i] ^ length_pad(
                key@,
                sequence_number,
            )@[i],
{
    OpeningKey::new(key).decrypt_packet_length(sequence_number, encrypted)
}

/// `OpeningKey::open_in_place` under a key made by `OpeningKey::new`, on a
/// copy of `sealed`.
///
/// Trusted: it succeeds exactly when `sealed` holds a length field, is within
/// the input limit, and `tag` equals the tag of `sealed`; what it then
/// returns is `sealed` without its first four bytes, xored with the payload
/// keystream. It panics on no input.
#[verifier::external_body]
pub(crate) fn open_in_place(
    key: &[u8; 64],
    sequence_number: u32,
    sealed: &[u8],
    tag: &[u8; 16],
) -> (opened: Result<Vec<u8>, Unspecified>)
    ensures
        opened is Ok <==> (4 <= sealed@.len() <= 4 + MAX_BODY_LEN && *tag == packet_tag(
            key@,
            sequence_number,
            sealed@,
        )),
        opened matches Ok(plain) ==> plain@.len() == sealed@.len() - 4,
        forall|i: int|
            opened is Ok && 0 <= i < sealed@.len() - 4 ==> #[trigger] opened->Ok_0@[i] == sealed@[i
                + 4] ^ payload_pad(key@, sequence_number, i),
{
    let mut in_out = sealed.to_vec();
    match OpeningKey::new(key).open_in_place(sequence_number, &mut in_out, tag) {
        Ok(plain) => Ok(plain.to_vec()),
        Err(e) => Err(e),
    }
}

} // verus!
