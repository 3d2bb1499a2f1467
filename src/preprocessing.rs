//! Input preparation for the text encoder, and the model's fixed sizes.

use vstd::prelude::*;

verus! {

/// Declares `instant_clip_tokenizer::Tokenizer`, the CLIP BPE tokenizer.
#[verifier::external_type_specification]
#[verifier::external_body]
pub struct ExTokenizer(instant_clip_tokenizer::Tokenizer);

/// The side of the square images that the vision model takes.
pub const IMAGE_INPUT_SIZE: usize = 336;

/// The number of tokens per text that the text model takes.
pub const CONTEXT_LENGTH: usize = 77;

/// The length of a feature vector.
pub const FEATURE_VECTOR_LENGTH: usize = 768;

/// Whether a row has the shape the text model takes: `CONTEXT_LENGTH`
/// tokens, the start marker (at least 512) first, the end marker (the start
/// marker plus one) at some later position, and zeros after it.
pub open spec fn is_token_row(r: Seq<i32>) -> bool {
    &&& r.len() == CONTEXT_LENGTH
    &&& r[0] >= 512
    &&& exists|e: int|
        1 <= e < CONTEXT_LENGTH && #[trigger] r[e] == r[0] + 1 && forall|j: int|
            e < j < CONTEXT_LENGTH ==> r[j] == 0
}

/// Whether a row is that of the empty text: the start marker, the end
/// marker right after it, then zeros.
pub open spec fn is_empty_text_row(r: Seq<i32>) -> bool {
    &&& r.len() == CONTEXT_LENGTH
    &&& r[1] == r[0] + 1
    &&& forall|j: int| 2 <= j < CONTEXT_LENGTH ==> r[j] == 0
}

/// Relies on `instant_clip_tokenizer::Tokenizer::tokenize_batch` on one text:
/// the result has one row of `context_length` tokens: the start marker, the
/// text's tokens cut to fit, the end marker, zero padding. The markers are
/// numbered after the 512 byte tokens and the merge rules, the end marker
/// right after the start marker; the empty text has no tokens of its own. It
/// panics only for a context length below 3.
#[verifier::external_body]
fn tokenize_row(tokenizer: &instant_clip_tokenizer::Tokenizer, text: &str) -> (r: Vec<u16>)
    ensures
        r@.len() == CONTEXT_LENGTH,
        r@[0] >= 512,
        exists|e: int|
            1 <= e < CONTEXT_LENGTH && #[trigger] r@[e] == r@[0] + 1 && forall|j: int|
                e < j < CONTEXT_LENGTH ==> r@[j] == 0,
        text@.len() == 0 ==> r@[1] == r@[0] + 1 && forall|j: int|
            2 <= j < CONTEXT_LENGTH ==> r@[j] == 0,
{
    tokenizer.tokenize_batch([text], CONTEXT_LENGTH).row(0).to_vec()
}

/// The tokens of one text as a batch of one row of `CONTEXT_LENGTH` signed
/// tokens, as the text model takes them. Every text, the empty one
/// included, gives exactly one row.
pub fn tokenize(text: &str, tokenizer: &instant_clip_tokenizer::Tokenizer) -> (r: Vec<Vec<i32>>)
    ensures
        r@.len() == 1,
        is_token_row(r@[0]@),
        text@.len() == 0 ==> is_empty_text_row(r@[0]@),
{
    let mut texts: Vec<&str> = Vec::new();
    texts.push(text);
    tokenize_batch(&texts, tokenizer)
}

/// The tokens of each text, one row of `CONTEXT_LENGTH` signed tokens per
/// text, in order.
pub fn tokenize_batch(texts: &Vec<&str>, tokenizer: &instant_clip_tokenizer::Tokenizer) -> (r: Vec<
    Vec<i32>,
>)
    ensures
        r@.len() == texts@.len(),
        forall|i: int| 0 <= i < r@.len() ==> is_token_row(#[trigger] r@[i]@),
        forall|i: int| 0 <= i < r@.len() && texts@[i]@.len() == 0 ==> is_empty_text_row(#[trigger] r@[i]@),
{
    let mut out: Vec<Vec<i32>> = Vec::new();
    let mut i: usize = 0;
    while i < texts.len()
        invariant
            0 <= i <= texts@.len(),
            out@.len() == i,
            forall|j: int| 0 <= j < i ==> is_token_row(#[trigger] out@[j]@),
            forall|j: int| 0 <= j < i && texts@[j]@.len() == 0 ==> is_empty_text_row(#[trigger] out@[j]@),
        decreases texts@.len() - i,
    {
        let row = tokenize_row(tokenizer, texts[i]);
        let mut signed: Vec<i32> = Vec::new();
        let mut j: usize = 0;
        while j < row.len()
            invariant
                0 <= j <= row@.len(),
                row@.len() == CONTEXT_LENGTH,
                signed@.len() == j,
                forall|t: int| 0 <= t < j ==> signed@[t] == row@[t] as i32,
            decreases row@.len() - j,
        {
            signed.push(row[j] as i32);
            j = j + 1;
        }
        proof {
            let e = choose|e: int|
                1 <= e < CONTEXT_LENGTH && #[trigger] row@[e] == row@[0] + 1 && forall|k: int|
                    e < k < CONTEXT_LENGTH ==> row@[k] == 0;
            assert(signed@[e] == signed@[0] + 1);
            assert(forall|k: int| e < k < CONTEXT_LENGTH ==> signed@[k] == 0);
            assert(is_token_row(signed@));
        }
        out.push(signed);
        i = i + 1;
    }
    out
}

} // verus!
