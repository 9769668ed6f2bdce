use vstd::prelude::*;

verus! {

/// The Blake2b-256 digest of a byte string.
pub uninterp spec fn blake2_256_of(data: Seq<u8>) -> [u8; 32];

/// The four little-endian bytes of a 32-bit integer.
pub open spec fn le_bytes_u32(x: u32) -> Seq<u8> {
    seq![
        (x % 256) as u8,
        ((x / 256) % 256) as u8,
        ((x / 65536) % 256) as u8,
        ((x / 16777216) % 256) as u8,
    ]
}

/// The bytes that a fingerprint is derived from: the parent block's hash, the
/// block number, the index of the operation within the block, and the mint
/// counter, each in its fixed-width encoding.
pub open spec fn entropy_payload(
    parent_hash: [u8; 32],
    block_number: u32,
    extrinsic_index: u32,
    count: u32,
) -> Seq<u8> {
    parent_hash@ + le_bytes_u32(block_number) + le_bytes_u32(extrinsic_index) + le_bytes_u32(
        count,
    )
}

/// Relies on parity_scale_codec's `Encode` for a tuple of a byte array and three
/// `u32`: the tuple's fields in order, the array as its bytes with no length
/// prefix, each integer as four little-endian bytes.
#[verifier::external_body]
pub(crate) fn encode_entropy(
    parent_hash: &[u8; 32],
    block_number: u32,
    extrinsic_index: u32,
    count: u32,
) -> (r: Vec<u8>)
    ensures
        r@ == entropy_payload(*parent_hash, block_number, extrinsic_index, count),
{
    parity_scale_codec::Encode::encode(&(*parent_hash, block_number, extrinsic_index, count))
}

/// Relies on sp_core's `Blake2Hasher::hash`: the Blake2b-256 digest of the
/// bytes, which depends on them alone.
#[verifier::external_body]
pub(crate) fn blake2_256(data: &Vec<u8>) -> (r: [u8; 32])
    ensures
        r == blake2_256_of(data@),
{
    <sp_core::Blake2Hasher as sp_core::Hasher>::hash(data.as_slice()).0
}

} // verus!
