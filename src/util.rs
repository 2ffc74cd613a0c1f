//! Room for tools that work on markdown post bodies.
use vstd::prelude::*;

verus! {

/// Tools for markdown post bodies; it holds no state.
pub struct MarkdownUtil {}

impl MarkdownUtil {
    pub fn new() -> (r: Self) {
        Self {}
    }
}

} // verus!
