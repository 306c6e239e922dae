use vstd::prelude::*;

use crate::text::{concat, decimal, decimal_string, trim, trim_str};

verus! {

/// The embedding model used unless told otherwise.
pub const DEFAULT_MODEL_ID: &'static str = "amazon.titan-embed-text-v2:0";

/// The length of the vectors asked for.
pub const DEFAULT_DIMENSIONS: usize = 1024;

/// How embeddings are asked for: the model, the vector length and whether vectors are
/// normalized.
pub struct EmbeddingSettings {
    pub model_id: String,
    pub dimensions: usize,
    pub normalize: bool,
}

impl EmbeddingSettings {
    /// The default model, [`DEFAULT_DIMENSIONS`] and normalized vectors.
    pub fn new() -> (s: Self)
        ensures
            s.model_id@ == DEFAULT_MODEL_ID@,
            s.dimensions == DEFAULT_DIMENSIONS,
            s.normalize,
    {
        Self { model_id: DEFAULT_MODEL_ID.to_owned(), dimensions: DEFAULT_DIMENSIONS, normalize: true }
    }
}

/// The text to embed: trimmed, which must not be empty.
pub fn embedding_input(text: &str) -> (r: Result<String, String>)
    ensures
        trim(text@).len() == 0 ==> (r matches Err(e) && e@ == "embedding input must not be empty"@),
        trim(text@).len() > 0 ==> (r matches Ok(s) && s@ == trim(text@)),
{
    let t = trim_str(text);
    if t.as_str().is_empty() {
        Err("embedding input must not be empty".to_owned())
    } else {
        Ok(t)
    }
}

/// Refuses a vector of another length than asked for.
pub fn check_dimensions(expected: usize, got: usize) -> (r: Result<(), String>)
    ensures
        r is Ok <==> expected == got,
        r matches Err(e) ==> e@ == "embedding dimension mismatch: expected "@ + decimal(expected as nat)
            + ", got "@ + decimal(got as nat),
{
    if expected == got {
        Ok(())
    } else {
        let a = concat("embedding dimension mismatch: expected ", decimal_string(expected as u128).as_str());
        let b = concat(a.as_str(), ", got ");
        Err(concat(b.as_str(), decimal_string(got as u128).as_str()))
    }
}

} // verus!
