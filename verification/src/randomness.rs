use crate::types::AccountId;
use vstd::prelude::*;

verus! {

/// The `width` low bytes of `x`, the lowest first.
pub open spec fn le_bytes(x: nat, width: nat) -> Seq<u8>
    decreases width,
{
    if width == 0 {
        Seq::empty()
    } else {
        seq![(x % 256) as u8] + le_bytes(x / 256, (width - 1) as nat)
    }
}

/// The bytes that stand for the position of an operation in its block: a
/// zero byte for no position, else a one byte and the position in four bytes,
/// the lowest first.
pub open spec fn position_bytes(extrinsic_index: Option<u32>) -> Seq<u8> {
    match extrinsic_index {
        None => seq![0u8],
        Some(index) => seq![1u8] + le_bytes(index as nat, 4),
    }
}

/// The bytes from which a random value is drawn: the seed, the sender in
/// eight bytes, the lowest first, and the position.
pub open spec fn payload(seed: Seq<u8>, sender: AccountId, extrinsic_index: Option<u32>) -> Seq<
    u8,
> {
    seed + le_bytes(sender as nat, 8) + position_bytes(extrinsic_index)
}

/// The 128-bit Blake2b hash of `data`.
pub uninterp spec fn blake2_128(data: Seq<u8>) -> Seq<u8>;

/// The random value that `sender` draws at a position from a seed.
pub open spec fn spec_random_value(
    seed: Seq<u8>,
    sender: AccountId,
    extrinsic_index: Option<u32>,
) -> Seq<u8> {
    blake2_128(payload(seed, sender, extrinsic_index))
}

/// Calls `parity_scale_codec::Encode::encode` on the tuple of the seed, the
/// sender and the position. The codec writes a tuple as its parts one after
/// the other, a byte array as its bytes, a fixed-width integer with its
/// lowest byte first, and an `Option` as a zero byte or as a one byte and the
/// value: that is the sequence `payload`.
#[verifier::external_body]
fn encode_payload(seed: &[u8; 32], sender: AccountId, extrinsic_index: Option<u32>) -> (bytes:
    Vec<u8>)
    ensures
        bytes@ == payload(seed@, sender, extrinsic_index),
{
    parity_scale_codec::Encode::encode(&(seed, &sender, extrinsic_index))
}

/// Calls `sp_io::hashing::blake2_128`, which hashes the bytes it is given
/// and nothing else; its result is named `blake2_128`.
#[verifier::external_body]
fn hash_blake2_128(data: &[u8]) -> (hash: [u8; 16])
    ensures
        hash@ == blake2_128(data@),
{
    sp_io::hashing::blake2_128(data)
}

/// Draws the sixteen random bytes of `sender` at a position from a seed.
pub fn random_bytes(seed: &[u8; 32], sender: AccountId, extrinsic_index: Option<u32>) -> (value:
    [u8; 16])
    ensures
        value@ == spec_random_value(seed@, sender, extrinsic_index),
{
    let bytes = encode_payload(seed, sender, extrinsic_index);
    hash_blake2_128(bytes.as_slice())
}

} // verus!
