//! Comment shapes as callers send and receive them.
use vstd::prelude::*;

verus! {

/// A new comment as it arrives.
pub struct CommentCreate {
    pub post_id: i32,
    pub author: String,
    pub content: String,
    pub parent_id: Option<i32>,
}

/// A new text for a comment.
pub struct CommentUpdate {
    pub content: String,
}

/// A comment as it is shown; `created_at` is in microseconds since the Unix epoch.
pub struct CommentRead {
    pub id: i32,
    pub post_id: i32,
    pub author: String,
    pub content: String,
    pub created_at: i64,
    pub parent_id: Option<i32>,
}

} // verus!
