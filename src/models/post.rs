//! Post shapes as callers send and receive them.
use crate::repositories::post::{PostMeta, PostMetaView};
use crate::service::{ServiceError, ServiceErrorView};
use crate::text::{split_at_char, split_on, trim, trimmed, views};
use vstd::prelude::*;

verus! {

/// A new post as it arrives: title, tags and raw content.
pub struct PostCreate {
    pub title: String,
    pub tags: Vec<String>,
    pub content: Vec<u8>,
}

/// The most characters a title may have.
pub const TITLE_MAX_CHARS: usize = 255;

/// The most tags a post may carry.
pub const TAGS_MAX: usize = 10;

/// The most content bytes a post may have: 10 MiB.
pub const CONTENT_MAX_BYTES: usize = 10485760;

/// `s` with each run of equal neighbours kept once.
pub open spec fn dedup_adjacent(s: Seq<Seq<char>>) -> Seq<Seq<char>>
    decreases s.len(),
{
    if s.len() == 0 {
        s
    } else {
        let earlier = dedup_adjacent(s.drop_last());
        if earlier.len() > 0 && earlier.last() == s.last() {
            earlier
        } else {
            earlier.push(s.last())
        }
    }
}

/// The tags a comma-separated field gives: each piece trimmed, and a piece
/// equal to the one before it dropped.
pub open spec fn tags_of_field(text: Seq<char>) -> Seq<Seq<char>> {
    dedup_adjacent(split_on(text, ',').map_values(|p: Seq<char>| trimmed(p)))
}

/// Reads a comma-separated tag field.
pub fn parse_tags_field(text: &str) -> (r: Vec<String>)
    ensures
        views(r@) == tags_of_field(text@),
{
    let pieces = split_at_char(text, ',');
    let ghost cut = views(pieces@).map_values(|p: Seq<char>| trimmed(p));
    let mut out: Vec<String> = Vec::new();
    let mut i: usize = 0;
    proof {
        assert(cut.take(0) =~= Seq::<Seq<char>>::empty());
        assert(views(out@) =~= dedup_adjacent(Seq::<Seq<char>>::empty()));
    }
    while i < pieces.len()
        invariant
            i <= pieces.len(),
            cut == views(pieces@).map_values(|p: Seq<char>| trimmed(p)),
            views(out@) == dedup_adjacent(cut.take(i as int)),
        decreases pieces.len() - i,
    {
        let t = trim(pieces[i].as_str());
        proof {
            assert(cut.take(i + 1).drop_last() =~= cut.take(i as int));
            assert(cut.take(i + 1).last() == t@);
        }
        let n = out.len();
        if n == 0 || out[n - 1] != t {
            let ghost before = views(out@);
            out.push(t);
            proof {
                assert(views(out@) =~= before.push(t@));
            }
        } else {
            proof {
                assert(views(out@).last() == out@[n - 1]@);
            }
        }
        i = i + 1;
    }
    proof {
        assert(cut.take(i as int) =~= cut);
    }
    out
}

/// The parts of a post upload form.
#[derive(PartialEq, Eq, Structural, Debug, Clone, Copy)]
pub enum UploadField {
    Title,
    Tags,
    Content,
}

/// Which part of the upload form a field name is; `None` for a name the form
/// does not have.
pub fn upload_field(name: &str) -> (r: Option<UploadField>)
    ensures
        r == (if name@ == "title"@ {
            Some(UploadField::Title)
        } else if name@ == "tags"@ {
            Some(UploadField::Tags)
        } else if name@ == "content"@ {
            Some(UploadField::Content)
        } else {
            None
        }),
{
    let n = String::from_str(name);
    if n == String::from_str("title") {
        Some(UploadField::Title)
    } else if n == String::from_str("tags") {
        Some(UploadField::Tags)
    } else if n == String::from_str("content") {
        Some(UploadField::Content)
    } else {
        None
    }
}

impl PostCreate {
    /// A post with an empty title, no tags and no content.
    pub fn empty() -> (r: Self)
        ensures
            r.title@.len() == 0,
            r.tags@.len() == 0,
            r.content@.len() == 0,
    {
        PostCreate { title: String::new(), tags: Vec::new(), content: Vec::new() }
    }

    /// Takes the title field, trimmed.
    pub fn set_title(&mut self, text: &str)
        ensures
            final(self).title@ == trimmed(text@),
            views(final(self).tags@) == views(old(self).tags@),
            final(self).content@ == old(self).content@,
    {
        self.title = trim(text);
    }

    /// Takes the tag field as `parse_tags_field` reads it.
    pub fn set_tags(&mut self, text: &str)
        ensures
            views(final(self).tags@) == tags_of_field(text@),
            final(self).title@ == old(self).title@,
            final(self).content@ == old(self).content@,
    {
        self.tags = parse_tags_field(text);
    }

    /// Takes the content field as it came.
    pub fn set_content(&mut self, bytes: Vec<u8>)
        ensures
            final(self).content@ == bytes@,
            final(self).title@ == old(self).title@,
            views(final(self).tags@) == views(old(self).tags@),
    {
        self.content = bytes;
    }

    /// Checks the limits a new post must keep, in this order: a title of 1 to
    /// 255 characters, at most 10 tags, at most 10 MiB of content. The first
    /// limit broken is reported as a bad argument.
    pub fn validate(&self) -> (r: Result<(), ServiceError>)
        ensures
            ({
                let title_ok = 0 < self.title@.len() <= TITLE_MAX_CHARS;
                let tags_ok = self.tags@.len() <= TAGS_MAX;
                let content_ok = self.content@.len() <= CONTENT_MAX_BYTES;
                match r {
                    Ok(_) => title_ok && tags_ok && content_ok,
                    Err(e) => if !title_ok {
                        e@ == ServiceErrorView::BadArugment(
                            "title must have 1 to 255 characters"@,
                        )
                    } else if !tags_ok {
                        e@ == ServiceErrorView::BadArugment("at most 10 tags are allowed"@)
                    } else {
                        !content_ok && e@ == ServiceErrorView::BadArugment(
                            "content must not exceed 10 MiB"@,
                        )
                    },
                }
            }),
    {
        let chars = self.title.as_str().unicode_len();
        if chars == 0 || chars > TITLE_MAX_CHARS {
            return Err(ServiceError::BadArugment(String::from_str("title must have 1 to 255 characters")));
        }
        if self.tags.len() > TAGS_MAX {
            return Err(ServiceError::BadArugment(String::from_str("at most 10 tags are allowed")));
        }
        if self.content.len() > CONTENT_MAX_BYTES {
            return Err(ServiceError::BadArugment(String::from_str("content must not exceed 10 MiB")));
        }
        Ok(())
    }
}

/// The id of a post.
pub struct PostId {
    pub id: i32,
}

impl PostId {
    pub fn new(id: i32) -> (r: Self)
        ensures
            r.id == id,
    {
        Self { id }
    }
}

/// Tags as one comma-separated text.
pub struct RowTags {
    pub tags: String,
}

/// Tags as a list.
pub struct Tags {
    pub tags: Vec<String>,
}

impl Tags {
    /// Splits the text at every comma; nothing is trimmed or dropped.
    pub fn from_row(value: RowTags) -> (r: Self)
        ensures
            views(r.tags@) == split_on(value.tags@, ','),
    {
        Self { tags: split_at_char(value.tags.as_str(), ',') }
    }
}

/// A post's metadata as it is shown.
pub struct PostMetaRead {
    pub id: i32,
    pub title: String,
    pub tags: Vec<String>,
    pub count: i32,
    pub first_publish: i64,
    pub last_modify: i64,
}

impl PostMetaRead {
    pub open spec fn shows(&self, m: PostMetaView) -> bool {
        &&& self.id as int == m.id
        &&& self.title@ == m.title
        &&& views(self.tags@) == m.tags
        &&& self.count as int == m.count
        &&& self.first_publish as int == m.first_publish
        &&& self.last_modify as int == m.last_modify
    }

    pub fn from_meta(value: PostMeta) -> (r: Self)
        ensures
            r.shows(value@),
    {
        Self {
            id: value.id,
            title: value.title,
            tags: value.tags,
            count: value.count,
            first_publish: value.first_publish,
            last_modify: value.last_modify,
        }
    }
}

/// A post with its content, as it is shown.
pub struct Post {
    pub id: i32,
    pub title: String,
    pub tags: Vec<String>,
    pub content: String,
    pub count: i32,
    pub first_publish: i64,
    pub last_modify: i64,
}

impl Post {
    pub fn with_content(meta: PostMeta, content: String) -> (r: Self)
        ensures
            r.id as int == meta@.id,
            r.title@ == meta@.title,
            views(r.tags@) == meta@.tags,
            r.content@ == content@,
            r.count as int == meta@.count,
            r.first_publish as int == meta@.first_publish,
            r.last_modify as int == meta@.last_modify,
    {
        Self {
            id: meta.id,
            title: meta.title,
            tags: meta.tags,
            content,
            count: meta.count,
            first_publish: meta.first_publish,
            last_modify: meta.last_modify,
        }
    }
}

} // verus!
