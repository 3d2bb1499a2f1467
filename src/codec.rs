//! The feature blob codec: a feature vector is stored as its length, a
//! little-endian `u64`, followed by each component's IEEE-754 single-precision
//! bit pattern as a little-endian `u32`. The codec works on bit patterns, so
//! a stored vector is restored bit for bit.

use vstd::prelude::*;

verus! {

/// Declares `bincode::ErrorKind`, the error that the codec's calls return.
#[verifier::external_type_specification]
#[verifier::external_body]
pub struct ExBincodeErrorKind(bincode::ErrorKind);

/// Byte `k` (0 for the lowest) of a `u32`.
pub open spec fn u32_byte(x: u32, k: int) -> u8 {
    if k == 0 {
        (x & 0xff) as u8
    } else if k == 1 {
        ((x >> 8u32) & 0xff) as u8
    } else if k == 2 {
        ((x >> 16u32) & 0xff) as u8
    } else {
        ((x >> 24u32) & 0xff) as u8
    }
}

/// Byte `k` (0 for the lowest) of a `u64`.
pub open spec fn u64_byte(x: u64, k: int) -> u8 {
    ((x >> ((8 * k) as u64)) & 0xff) as u8
}

/// The `u32` whose little-endian bytes start at `at` in `b`.
pub open spec fn read_u32_le(b: Seq<u8>, at: int) -> u32 {
    (b[at] as u32) | ((b[at + 1] as u32) << 8u32) | ((b[at + 2] as u32) << 16u32) | ((b[at + 3] as u32)
        << 24u32)
}

/// The `u64` whose little-endian bytes start at `at` in `b`.
pub open spec fn read_u64_le(b: Seq<u8>, at: int) -> u64 {
    (b[at] as u64) | ((b[at + 1] as u64) << 8u64) | ((b[at + 2] as u64) << 16u64) | ((b[at + 3] as u64)
        << 24u64) | ((b[at + 4] as u64) << 32u64) | ((b[at + 5] as u64) << 40u64) | ((b[at + 6] as u64)
        << 48u64) | ((b[at + 7] as u64) << 56u64)
}

/// The blob that stores the bit patterns `v`.
pub open spec fn blob_bytes(v: Seq<u32>) -> Seq<u8> {
    Seq::new(
        (8 + 4 * v.len()) as nat,
        |j: int|
            if j < 8 {
                u64_byte(v.len() as u64, j)
            } else {
                u32_byte(v[(j - 8) / 4], (j - 8) % 4)
            },
    )
}

/// The number of components that a blob announces in its first eight bytes.
pub open spec fn blob_count(b: Seq<u8>) -> nat {
    read_u64_le(b, 0) as nat
}

/// A blob is readable when it holds the length field and every component it
/// announces; bytes after the last component are ignored.
pub open spec fn blob_is_valid(b: Seq<u8>) -> bool {
    b.len() >= 8 && b.len() >= 8 + 4 * blob_count(b)
}

/// The bit patterns that a readable blob stores.
pub open spec fn blob_values(b: Seq<u8>) -> Seq<u32> {
    Seq::new(blob_count(b), |i: int| read_u32_le(b, 8 + 4 * i))
}

/// Why a blob could not be read.
#[derive(PartialEq, Eq, Structural, Clone, Copy, Debug)]
pub enum BlobError {
    /// The blob ends before the length field or before the last component.
    Truncated,
}

/// Relies on `bincode::serialize` (fixed-width integers, little-endian, no
/// limit) on a `Vec<u32>`: a `u64` length, then each element's four bytes;
/// writing into a `Vec` does not fail.
#[verifier::external_body]
fn bincode_serialize_u32s(v: &Vec<u32>) -> (r: Result<Vec<u8>, bincode::Error>)
    ensures
        r is Ok,
        r->Ok_0@ == blob_bytes(v@),
{
    bincode::serialize(v)
}

/// Relies on `bincode::deserialize::<Vec<u32>>` with the same options: it
/// reads the `u64` length and that many little-endian `u32`s, fails when the
/// bytes run out, and accepts trailing bytes.
#[verifier::external_body]
fn bincode_deserialize_u32s(b: &[u8]) -> (r: Result<Vec<u32>, bincode::Error>)
    ensures
        r is Ok <==> blob_is_valid(b@),
        r is Ok ==> r->Ok_0@ == blob_values(b@),
{
    bincode::deserialize::<Vec<u32>>(b)
}

/// Encodes a feature vector, given as the bit patterns of its components.
pub fn encode_feature_vector(v: &Vec<u32>) -> (r: Vec<u8>)
    ensures
        r@ == blob_bytes(v@),
{
    match bincode_serialize_u32s(v) {
        Ok(b) => b,
        Err(_) => Vec::new(),
    }
}

/// Decodes a feature blob into the bit patterns of its components.
pub fn decode_feature_vector(b: &[u8]) -> (r: Result<Vec<u32>, BlobError>)
    ensures
        r is Ok <==> blob_is_valid(b@),
        r matches Ok(v) ==> v@ == blob_values(b@),
        r matches Err(e) ==> e == BlobError::Truncated,
{
    match bincode_deserialize_u32s(b) {
        Ok(v) => Ok(v),
        Err(_) => Err(BlobError::Truncated),
    }
}

proof fn lemma_u32_bytes_round_trip(x: u32)
    ensures
        read_u32_le(seq![u32_byte(x, 0), u32_byte(x, 1), u32_byte(x, 2), u32_byte(x, 3)], 0) == x,
{
    let b0 = (x & 0xff) as u8;
    let b1 = ((x >> 8u32) & 0xff) as u8;
    let b2 = ((x >> 16u32) & 0xff) as u8;
    let b3 = ((x >> 24u32) & 0xff) as u8;
    assert((b0 as u32) | ((b1 as u32) << 8u32) | ((b2 as u32) << 16u32) | ((b3 as u32) << 24u32) == x)
        by (bit_vector)
        requires
            b0 == (x & 0xff) as u8,
            b1 == ((x >> 8u32) & 0xff) as u8,
            b2 == ((x >> 16u32) & 0xff) as u8,
            b3 == ((x >> 24u32) & 0xff) as u8,
    ;
}

proof fn lemma_u64_bytes_round_trip(x: u64)
    ensures
        read_u64_le(
            seq![
                u64_byte(x, 0),
                u64_byte(x, 1),
                u64_byte(x, 2),
                u64_byte(x, 3),
                u64_byte(x, 4),
                u64_byte(x, 5),
                u64_byte(x, 6),
                u64_byte(x, 7),
            ],
            0,
        ) == x,
{
    let b0 = u64_byte(x, 0);
    let b1 = u64_byte(x, 1);
    let b2 = u64_byte(x, 2);
    let b3 = u64_byte(x, 3);
    let b4 = u64_byte(x, 4);
    let b5 = u64_byte(x, 5);
    let b6 = u64_byte(x, 6);
    let b7 = u64_byte(x, 7);
    assert((b0 as u64) | ((b1 as u64) << 8u64) | ((b2 as u64) << 16u64) | ((b3 as u64) << 24u64) | ((
    b4 as u64) << 32u64) | ((b5 as u64) << 40u64) | ((b6 as u64) << 48u64) | ((b7 as u64) << 56u64)
        == x) by (bit_vector)
        requires
            b0 == ((x >> 0u64) & 0xff) as u8,
            b1 == ((x >> 8u64) & 0xff) as u8,
            b2 == ((x >> 16u64) & 0xff) as u8,
            b3 == ((x >> 24u64) & 0xff) as u8,
            b4 == ((x >> 32u64) & 0xff) as u8,
            b5 == ((x >> 40u64) & 0xff) as u8,
            b6 == ((x >> 48u64) & 0xff) as u8,
            b7 == ((x >> 56u64) & 0xff) as u8,
    ;
}

/// Decoding an encoded feature vector gives back the same bit patterns:
/// every blob that the encoder writes is readable and stores exactly `v`.
pub proof fn lemma_feature_blob_round_trip(v: Seq<u32>)
    requires
        v.len() <= u64::MAX,
    ensures
        blob_is_valid(blob_bytes(v)),
        blob_values(blob_bytes(v)) == v,
{
    let b = blob_bytes(v);
    lemma_u64_bytes_round_trip(v.len() as u64);
    assert(b.subrange(0, 8) =~= seq![
        u64_byte(v.len() as u64, 0),
        u64_byte(v.len() as u64, 1),
        u64_byte(v.len() as u64, 2),
        u64_byte(v.len() as u64, 3),
        u64_byte(v.len() as u64, 4),
        u64_byte(v.len() as u64, 5),
        u64_byte(v.len() as u64, 6),
        u64_byte(v.len() as u64, 7),
    ]);
    assert(read_u64_le(b, 0) == read_u64_le(b.subrange(0, 8), 0));
    assert(blob_count(b) == v.len());
    assert forall|i: int| 0 <= i < v.len() implies #[trigger] read_u32_le(b, 8 + 4 * i) == v[i] by {
        lemma_u32_bytes_round_trip(v[i]);
        assert((8 + 4 * i - 8) / 4 == i);
        assert((8 + 4 * i + 1 - 8) / 4 == i && (8 + 4 * i + 1 - 8) % 4 == 1);
        assert((8 + 4 * i + 2 - 8) / 4 == i && (8 + 4 * i + 2 - 8) % 4 == 2);
        assert((8 + 4 * i + 3 - 8) / 4 == i && (8 + 4 * i + 3 - 8) % 4 == 3);
        assert(b[8 + 4 * i] == u32_byte(v[i], 0));
        assert(b[8 + 4 * i + 1] == u32_byte(v[i], 1));
        assert(b[8 + 4 * i + 2] == u32_byte(v[i], 2));
        assert(b[8 + 4 * i + 3] == u32_byte(v[i], 3));
    }
    assert(blob_values(b) =~= v);
}

} // verus!
