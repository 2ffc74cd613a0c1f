//! Comment handling around a comment store: argument checks and the
//! conversions between what callers send, what the store keeps, and what is
//! shown.
use crate::models::comment::{
    CommentCreate as ModelCommentCreate, CommentRead, CommentUpdate as ModelCommentUpdate,
};
use crate::repositories::comment::{
    Comment as RepoComment, CommentCreate as RepoCommentCreate, CommentUpdate as RepoCommentUpdate,
};
use crate::service::{ServiceError, ServiceErrorView};
use vstd::prelude::*;

verus! {

/// The most characters an author name may have.
pub const AUTHOR_MAX_CHARS: usize = 255;

/// The most characters a comment may have.
pub const COMMENT_MAX_CHARS: usize = 1000;

/// Ids start at 1: anything lower is rejected before a store is asked.
pub fn check_id(id: i32) -> (r: Result<(), ServiceError>)
    ensures
        match r {
            Ok(_) => id > 0,
            Err(e) => id <= 0 && e@ == ServiceErrorView::BadArugment("invalid id"@),
        },
{
    if id <= 0 {
        Err(ServiceError::BadArugment(String::from_str("invalid id")))
    } else {
        Ok(())
    }
}

/// A comment text must have 1 to 1000 characters.
pub fn check_comment_content(content: &str) -> (r: Result<(), ServiceError>)
    ensures
        match r {
            Ok(_) => 0 < content@.len() <= COMMENT_MAX_CHARS,
            Err(e) => !(0 < content@.len() <= COMMENT_MAX_CHARS) && e@
                == ServiceErrorView::BadArugment("comment must have 1 to 1000 characters"@),
        },
{
    let n = content.unicode_len();
    if n == 0 || n > COMMENT_MAX_CHARS {
        Err(ServiceError::BadArugment(String::from_str("comment must have 1 to 1000 characters")))
    } else {
        Ok(())
    }
}

/// A new comment needs an author of 1 to 255 characters, then a text of 1 to
/// 1000 characters; the first rule broken is reported.
pub fn check_comment(comment: &ModelCommentCreate) -> (r: Result<(), ServiceError>)
    ensures
        ({
            let author_ok = 0 < comment.author@.len() <= AUTHOR_MAX_CHARS;
            let content_ok = 0 < comment.content@.len() <= COMMENT_MAX_CHARS;
            match r {
                Ok(_) => author_ok && content_ok,
                Err(e) => if !author_ok {
                    e@ == ServiceErrorView::BadArugment("author must have 1 to 255 characters"@)
                } else {
                    !content_ok && e@ == ServiceErrorView::BadArugment(
                        "comment must have 1 to 1000 characters"@,
                    )
                },
            }
        }),
{
    let n = comment.author.as_str().unicode_len();
    if n == 0 || n > AUTHOR_MAX_CHARS {
        return Err(ServiceError::BadArugment(String::from_str("author must have 1 to 255 characters")));
    }
    check_comment_content(comment.content.as_str())
}

/// What the store is asked to create for a new comment.
pub fn to_repo_create(comment: ModelCommentCreate) -> (r: RepoCommentCreate)
    ensures
        r.post_id == comment.post_id,
        r.author@ == comment.author@,
        r.content@ == comment.content@,
        r.parent_id == comment.parent_id,
{
    RepoCommentCreate {
        post_id: comment.post_id,
        author: comment.author,
        content: comment.content,
        parent_id: comment.parent_id,
    }
}

/// What the store is asked to change for comment `id`.
pub fn to_repo_update(id: i32, comment: ModelCommentUpdate) -> (r: RepoCommentUpdate)
    ensures
        r.id == id,
        r.content@ == comment.content@,
{
    RepoCommentUpdate { id, content: comment.content }
}

/// A stored comment as it is shown.
pub fn convert_repo_comment_to_read(comment: RepoComment) -> (r: CommentRead)
    ensures
        r.id == comment.id,
        r.post_id == comment.post_id,
        r.author@ == comment.author@,
        r.content@ == comment.content@,
        r.created_at == comment.created_at,
        r.parent_id == comment.parent_id,
{
    CommentRead {
        id: comment.id,
        post_id: comment.post_id,
        author: comment.author,
        content: comment.content,
        created_at: comment.created_at,
        parent_id: comment.parent_id,
    }
}

} // verus!
