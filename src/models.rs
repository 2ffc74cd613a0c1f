//! Request and response shapes around the post service.
use vstd::prelude::*;

pub mod comment;
pub mod post;
pub mod response;

verus! {

/// The page size used when a listing request names none.
pub const DEFAULT_PAGE_SIZE: i32 = 8;

/// A listing request: the last id the caller has seen and how many rows it wants.
pub struct Pagenigation {
    pub cursor: Option<i32>,
    pub page_size: i32,
}

/// The page size a listing falls back to.
pub fn default_page_size() -> (r: i32)
    ensures
        r == DEFAULT_PAGE_SIZE,
{
    DEFAULT_PAGE_SIZE
}

/// The lower bound a listing starts above: the cursor, or 0 without one.
pub open spec fn start_after(cursor: Option<i32>) -> int {
    match cursor {
        Some(c) => c as int,
        None => 0,
    }
}

impl Pagenigation {
    /// A listing request from its optional parts; a missing page size is the default.
    pub fn from_query(cursor: Option<i32>, page_size: Option<i32>) -> (r: Pagenigation)
        ensures
            r.cursor == cursor,
            r.page_size == match page_size {
                Some(n) => n,
                None => DEFAULT_PAGE_SIZE,
            },
    {
        let size = match page_size {
            Some(n) => n,
            None => default_page_size(),
        };
        Pagenigation { cursor, page_size: size }
    }

    /// The id the page starts above.
    pub fn start_id(&self) -> (r: i32)
        ensures
            r as int == start_after(self.cursor),
    {
        match self.cursor {
            Some(c) => c,
            None => 0,
        }
    }
}

} // verus!
