//! Title segmentation into search tokens, by jieba's search mode.
use crate::text::views;
use jieba_rs::Jieba;
use vstd::prelude::*;

verus! {

#[verifier::external_type_specification]
#[verifier::external_body]
pub struct ExJieba(Jieba);

/// Relies on jieba_rs::Jieba::new: a segmenter loaded with the bundled dictionary.
pub assume_specification[ Jieba::new ]() -> Jieba;

/// The tokens jieba's search mode, with the hidden Markov model on, cuts a
/// text into under the bundled dictionary.
pub uninterp spec fn search_segments(text: Seq<char>) -> Seq<Seq<char>>;

/// Splits titles into search tokens.
pub struct Tokenizer {
    jieba: Jieba,
}

impl Tokenizer {
    /// A tokenizer over the bundled dictionary.
    pub fn new() -> (r: Tokenizer) {
        Tokenizer { jieba: Jieba::new() }
    }

    /// Relies on jieba_rs::Jieba::cut_for_search with the hidden Markov model
    /// on: for a segmenter made by `Jieba::new` the tokens depend on the text
    /// alone, and an empty text has none.
    #[verifier::external_body]
    fn segments(&self, text: &str) -> (r: Vec<String>)
        ensures
            views(r@) == search_segments(text@),
            text@.len() == 0 ==> r@.len() == 0,
    {
        self.jieba.cut_for_search(text, true).into_iter().map(|w| w.to_string()).collect()
    }

    /// The search tokens of a title; none for an empty title.
    pub fn cut(&self, text: &str) -> (r: Vec<String>)
        ensures
            views(r@) == search_segments(text@),
            text@.len() == 0 ==> r@.len() == 0,
    {
        self.segments(text)
    }
}

} // verus!
