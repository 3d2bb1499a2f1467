//! The exact steps of the ingestion pipeline: files go through in chunks;
//! per chunk the files that failed to load are set apart, the encoder's
//! output is cut into one feature vector per loaded file, and each vector is
//! paired with its file and encoded as a blob.

use vstd::prelude::*;
use crate::ann::FeatureRow;
use crate::codec::{blob_bytes, encode_feature_vector};
use crate::preprocessing::FEATURE_VECTOR_LENGTH;
use crate::uuid::UUID;

verus! {

/// The number of files loaded and encoded together.
pub const INGEST_CHUNK_SIZE: usize = 32;

/// Why an encoder batch cannot be used.
#[derive(PartialEq, Eq, Structural, Clone, Copy, Debug)]
pub enum EncodeError {
    /// The batch holds no image or no text.
    EmptyBatch,
    /// The output does not hold one feature vector per input.
    ShapeMismatch,
}

/// Refuses an empty batch before the encoder is run.
pub fn check_batch(n: usize) -> (r: Result<(), EncodeError>)
    ensures
        r is Err <==> n == 0,
        r matches Err(e) ==> e == EncodeError::EmptyBatch,
{
    if n == 0 {
        Err(EncodeError::EmptyBatch)
    } else {
        Ok(())
    }
}

/// Cuts the encoder's flat output for a batch of `n` inputs into `n` rows of
/// `FEATURE_VECTOR_LENGTH` components.
pub fn split_rows(n: usize, flat: &Vec<u32>) -> (r: Result<Vec<Vec<u32>>, EncodeError>)
    ensures
        n == 0 ==> r == Err::<Vec<Vec<u32>>, EncodeError>(EncodeError::EmptyBatch),
        n > 0 && flat@.len() != n * FEATURE_VECTOR_LENGTH ==> r == Err::<Vec<Vec<u32>>, EncodeError>(
            EncodeError::ShapeMismatch,
        ),
        r is Ok <==> n > 0 && flat@.len() == n * FEATURE_VECTOR_LENGTH,
        r matches Ok(rows) ==> rows@.len() == n && forall|i: int|
            0 <= i < n ==> (#[trigger] rows@[i])@ == flat@.subrange(
                i * FEATURE_VECTOR_LENGTH,
                (i + 1) * FEATURE_VECTOR_LENGTH,
            ),
{
    if n == 0 {
        return Err(EncodeError::EmptyBatch);
    }
    let d = FEATURE_VECTOR_LENGTH;
    let len = flat.len();
    if len % d != 0 || len / d != n {
        assert(len != n * d) by (nonlinear_arith)
            requires
                len % d != 0 || len / d != n,
                d == 768,
        ;
        return Err(EncodeError::ShapeMismatch);
    }
    assert(len == n * d) by (nonlinear_arith)
        requires
            len % d == 0,
            len / d == n,
            d == 768,
    ;
    let mut rows: Vec<Vec<u32>> = Vec::new();
    let mut i: usize = 0;
    while i < n
        invariant
            0 <= i <= n,
            d == FEATURE_VECTOR_LENGTH,
            flat@.len() == n * d,
            len == flat@.len(),
            rows@.len() == i,
            forall|t: int|
                0 <= t < i ==> (#[trigger] rows@[t])@ == flat@.subrange(t * d, (t + 1) * d),
        decreases n - i,
    {
        assert(i * d + d <= n * d) by (nonlinear_arith)
            requires
                i < n,
                d == 768,
        ;
        let start = i * d;
        let mut row: Vec<u32> = Vec::new();
        let mut j: usize = 0;
        while j < d
            invariant
                0 <= j <= d,
                d == FEATURE_VECTOR_LENGTH,
                start == i * d,
                start + d <= flat@.len(),
                flat@.len() == len,
                row@ == flat@.subrange(start as int, start + j),
            decreases d - j,
        {
            row.push(flat[start + j]);
            assert(row@ =~= flat@.subrange(start as int, start + j + 1));
            j = j + 1;
        }
        assert((i + 1) * d == start + d) by (nonlinear_arith)
            requires
                start == i * d,
        ;
        rows.push(row);
        i = i + 1;
    }
    Ok(rows)
}

/// The chunk that starts at `start` of `n` files: up to `INGEST_CHUNK_SIZE`
/// of them.
pub open spec fn chunk_end(start: int, n: int) -> int {
    if start + INGEST_CHUNK_SIZE < n {
        start + INGEST_CHUNK_SIZE
    } else {
        n
    }
}

/// The bounds `(start, end)` of the chunks of `n` files, in order: chunk `i`
/// starts at `i * INGEST_CHUNK_SIZE`, every chunk but the last is full, and
/// together they cover every file once.
pub fn chunk_bounds(n: usize) -> (r: Vec<(usize, usize)>)
    ensures
        r@.len() == (n + INGEST_CHUNK_SIZE - 1) / INGEST_CHUNK_SIZE as int,
        forall|i: int|
            0 <= i < r@.len() ==> (#[trigger] r@[i]).0 == i * INGEST_CHUNK_SIZE && r@[i].1
                == chunk_end(i * INGEST_CHUNK_SIZE, n as int),
{
    let mut out: Vec<(usize, usize)> = Vec::new();
    let mut start: usize = 0;
    while start < n
        invariant
            start == out@.len() * INGEST_CHUNK_SIZE,
            start <= n || out@.len() == (n + INGEST_CHUNK_SIZE - 1) / INGEST_CHUNK_SIZE as int,
            start < n + INGEST_CHUNK_SIZE,
            out@.len() == (start + INGEST_CHUNK_SIZE - 1) / INGEST_CHUNK_SIZE as int,
            forall|i: int|
                0 <= i < out@.len() ==> (#[trigger] out@[i]).0 == i * INGEST_CHUNK_SIZE && out@[i].1
                    == chunk_end(i * INGEST_CHUNK_SIZE, n as int),
        decreases n - start,
    {
        let end = if n - start > INGEST_CHUNK_SIZE {
            start + INGEST_CHUNK_SIZE
        } else {
            n
        };
        out.push((start, end));
        if n - start > INGEST_CHUNK_SIZE {
            start = start + INGEST_CHUNK_SIZE;
        } else {
            assert(out@.len() == (n + INGEST_CHUNK_SIZE - 1) / INGEST_CHUNK_SIZE as int);
            return out;
        }
    }
    out
}

/// The elements of `ids`, in order, whose flag in `ok` equals `want`.
pub open spec fn ids_with_outcome(ids: Seq<UUID>, ok: Seq<bool>, want: bool) -> Seq<UUID>
    decreases ids.len(),
{
    if ids.len() == 0 {
        Seq::empty()
    } else {
        let rest = ids_with_outcome(ids.drop_last(), ok, want);
        if ok[ids.len() - 1] == want {
            rest.push(ids.last())
        } else {
            rest
        }
    }
}

/// Sets apart the files of a chunk that loaded (`ok[i]`) from those that
/// did not, keeping their order: `(loaded, failed)`.
pub fn split_by_outcome(ids: &Vec<UUID>, ok: &Vec<bool>) -> (r: (Vec<UUID>, Vec<UUID>))
    requires
        ids@.len() == ok@.len(),
    ensures
        r.0@ == ids_with_outcome(ids@, ok@, true),
        r.1@ == ids_with_outcome(ids@, ok@, false),
{
    let mut good: Vec<UUID> = Vec::new();
    let mut bad: Vec<UUID> = Vec::new();
    let mut i: usize = 0;
    while i < ids.len()
        invariant
            0 <= i <= ids@.len(),
            ids@.len() == ok@.len(),
            good@ == ids_with_outcome(ids@.subrange(0, i as int), ok@, true),
            bad@ == ids_with_outcome(ids@.subrange(0, i as int), ok@, false),
        decreases ids@.len() - i,
    {
        assert(ids@.subrange(0, i + 1).drop_last() =~= ids@.subrange(0, i as int));
        if ok[i] {
            good.push(ids[i]);
        } else {
            bad.push(ids[i]);
        }
        i = i + 1;
    }
    assert(ids@.subrange(0, ids@.len() as int) =~= ids@);
    (good, bad)
}

/// Pairs each loaded file with its feature vector, in order, and encodes the
/// vector as a blob. There must be exactly one vector per file.
pub fn feature_rows(ids: &Vec<UUID>, vectors: &Vec<Vec<u32>>) -> (r: Result<
    Vec<FeatureRow>,
    EncodeError,
>)
    ensures
        r is Ok <==> ids@.len() == vectors@.len(),
        r matches Err(e) ==> e == EncodeError::ShapeMismatch,
        r matches Ok(rows) ==> rows@.len() == ids@.len() && forall|i: int|
            0 <= i < ids@.len() ==> (#[trigger] rows@[i]).id == ids@[i] && rows@[i].feature_vector@
                == blob_bytes(vectors@[i]@),
{
    if ids.len() != vectors.len() {
        return Err(EncodeError::ShapeMismatch);
    }
    let mut out: Vec<FeatureRow> = Vec::new();
    let mut i: usize = 0;
    while i < ids.len()
        invariant
            0 <= i <= ids@.len(),
            ids@.len() == vectors@.len(),
            out@.len() == i,
            forall|j: int|
                0 <= j < i ==> (#[trigger] out@[j]).id == ids@[j] && out@[j].feature_vector@
                    == blob_bytes(vectors@[j]@),
        decreases ids@.len() - i,
    {
        let blob = encode_feature_vector(&vectors[i]);
        out.push(FeatureRow { id: ids[i], feature_vector: blob });
        i = i + 1;
    }
    Ok(out)
}

} // verus!
