//! Local speech models: how a model's file is named.

use vstd::prelude::*;

verus! {

/// The Unicode lowercase form of `s`, as `str::to_lowercase` gives it.
pub uninterp spec fn lowercase_of(s: Seq<char>) -> Seq<char>;

/// Relies on `str::to_lowercase`: the Unicode lowercase mapping of the text,
/// which depends on the characters alone.
#[verifier::external_body]
fn to_lowercase(s: &str) -> (r: String)
    ensures
        r@ == lowercase_of(s@),
{
    s.to_lowercase()
}

/// The file name of the model whose type, already lowercase, is
/// `lowercase_type`.
pub fn model_filename(lowercase_type: &str) -> (r: String)
    ensures
        r@ == "ggml-"@ + lowercase_type@ + ".bin"@,
{
    String::from_str("ggml-").concat(lowercase_type).concat(".bin")
}

/// The file name of the model of type `model_type` (case does not matter).
pub fn get_model_filename(model_type: &str) -> (r: String)
    ensures
        r@ == "ggml-"@ + lowercase_of(model_type@) + ".bin"@,
{
    let lower = to_lowercase(model_type);
    model_filename(lower.as_str())
}

} // verus!
