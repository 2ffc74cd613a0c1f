//! Comment rows as a comment store holds them.
use vstd::prelude::*;

verus! {

/// A new comment, as handed to a comment store.
pub struct CommentCreate {
    pub post_id: i32,
    pub author: String,
    pub content: String,
    pub parent_id: Option<i32>,
}

/// A new text for an existing comment.
pub struct CommentUpdate {
    pub id: i32,
    pub content: String,
}

/// A stored comment; `created_at` is in microseconds since the Unix epoch.
pub struct Comment {
    pub id: i32,
    pub post_id: i32,
    pub author: String,
    pub content: String,
    pub created_at: i64,
    pub parent_id: Option<i32>,
}

} // verus!
