use vstd::prelude::*;

verus! {

/// The number of tokens that the tokenizer selected by `model` yields for
/// `text`. The tokenization is a pure function of the model name and the
/// text, so its result carries a name and nothing more is assumed of it.
pub uninterp spec fn token_count_of(model: Seq<char>, text: Seq<char>) -> usize;

/// Relies on tiktoken_rs::bpe_for_model (falling back to
/// tiktoken_rs::o200k_base_singleton when the model name is unrecognized)
/// and CoreBPE::count_with_special_tokens: which tokenizer is chosen depends
/// on the model name alone, and the count it returns depends on the text
/// alone, so the result is a function of the two strings. An empty text
/// yields no pieces to encode, so its count is zero.
#[verifier::external_body]
pub fn count_tokens(model: &str, text: &str) -> (r: usize)
    ensures
        r == token_count_of(model@, text@),
        text@.len() == 0 ==> r == 0,
{
    let bpe = match tiktoken_rs::bpe_for_model(model) {
        Ok(b) => b,
        Err(_) => tiktoken_rs::o200k_base_singleton(),
    };
    bpe.count_with_special_tokens(text)
}

} // verus!
