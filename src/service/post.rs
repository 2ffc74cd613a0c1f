//! The post repository: a metadata store, a content store and a tokenizer
//! behind one contract.
//!
//! Creating a post is two steps that are not atomic: the metadata row is
//! committed first, then the content is written. When the content write fails
//! the row stays, pointing at content that does not exist, and the error is
//! returned; nothing is rolled back. Deleting a post removes its row only.
use crate::content::{file_path, ContentStore, ContentView};
use crate::models::post::PostCreate;
use crate::models::{start_after, Pagenigation};
use crate::repositories::post::{
    after_add, after_delete, batch_delete, after_list, after_update, after_view, can_add, created, has_id,
    has_tag, index_of, keyword_hits, metas, page, revised, tag_hits, viewed, MemoryPostStore,
    PostMeta, PostMetaCreate, PostMetaUpdate, PostMetaView, StoreView,
};
use crate::service::{FileFaultView, ServiceError, ServiceErrorView};
use crate::text::{strictly_sorted, views};
use crate::tokenizer::{search_segments, Tokenizer};
use vstd::prelude::*;

verus! {

/// A post service as a value: its metadata store and its content store.
pub struct PostServiceView {
    pub store: StoreView,
    pub content: ContentView,
}

/// Posts with their metadata, content and search tokens.
pub struct PostService {
    post: MemoryPostStore,
    files: ContentStore,
    jieba: Tokenizer,
}

impl View for PostService {
    type V = PostServiceView;

    closed spec fn view(&self) -> PostServiceView {
        PostServiceView { store: self.post@, content: self.files@ }
    }
}

impl PostService {
    pub closed spec fn wf(&self) -> bool {
        self.post.wf() && self.files.wf()
    }

    /// An empty repository whose content goes under `save_dir`.
    pub fn new(save_dir: &str) -> (r: Self)
        ensures
            r.wf(),
            r@.store.rows.len() == 0,
            r@.store.next_id == 1,
            r@.content.dir == save_dir@,
            r@.content.files == Map::<Seq<char>, Seq<u8>>::empty(),
    {
        PostService {
            post: MemoryPostStore::new(),
            files: ContentStore::new(save_dir),
            jieba: Tokenizer::new(),
        }
    }

    /// Creates a post: its title is cut into search tokens, a row is created
    /// from title, tags and tokens, and then the content is written under the
    /// returned row's title.
    ///
    /// With no id left, nothing changes and an internal error comes back. When
    /// content already stands at the title's path, the row stays created and
    /// the write error comes back.
    pub fn add_one(&mut self, post: PostCreate, now: i64) -> (r: Result<PostMeta, ServiceError>)
        requires
            old(self).wf(),
        ensures
            final(self).wf(),
            final(self)@.content.dir == old(self)@.content.dir,
            ({
                let s = old(self)@;
                let kw = search_segments(post.title@);
                let tags = views(post.tags@);
                let p = file_path(s.content.dir, post.title@);
                if !can_add(s.store) {
                    r matches Err(ServiceError::InternalError(_)) && final(self)@ == s
                } else {
                    &&& final(self)@.store == after_add(s.store, post.title@, tags, kw, now as int)
                    &&& if s.content.files.contains_key(p) {
                        &&& r matches Err(e) && e@ == ServiceErrorView::FileError(
                            FileFaultView::AlreadyExists,
                        )
                        &&& final(self)@.content == s.content
                    } else {
                        &&& r matches Ok(m) && m@ == created(s.store, post.title@, tags, now as int)
                        &&& final(self)@.content.files == s.content.files.insert(p, post.content@)
                    }
                }
            }),
    {
        let PostCreate { title, tags, content } = post;
        let kw = self.jieba.cut(title.as_str());
        let created = match self.post.add(PostMetaCreate { title, tags, kw }, now) {
            Ok(m) => m,
            Err(e) => {
                return Err(ServiceError::from_repository(e));
            },
        };
        match self.files.write(created.title.as_str(), content) {
            Ok(()) => Ok(created),
            Err(e) => Err(e),
        }
    }

    /// Fetches the metadata of post `id`, counting one view; `NotFound`, with
    /// nothing changed, when there is no such post.
    pub fn read_one(&mut self, id: i32) -> (r: Result<PostMeta, ServiceError>)
        requires
            old(self).wf(),
        ensures
            final(self).wf(),
            final(self)@.content == old(self)@.content,
            match r {
                Ok(m) => has_id(old(self)@.store.rows, id as int) && m@ == viewed(
                    old(self)@.store.rows[index_of(old(self)@.store.rows, id as int)].meta,
                ) && final(self)@.store == after_view(old(self)@.store, id as int),
                Err(e) => !has_id(old(self)@.store.rows, id as int) && e is NotFound && final(self)@ == old(self)@,
            },
    {
        match self.post.find_by_id(id) {
            Ok(m) => Ok(m),
            Err(e) => Err(ServiceError::from_repository(e)),
        }
    }

    /// Deletes the metadata of post `id` and returns it as it stood; its
    /// content is left in place. `NotFound`, with nothing changed, when there is
    /// no such post.
    pub fn delete_one(&mut self, id: i32) -> (r: Result<PostMeta, ServiceError>)
        requires
            old(self).wf(),
        ensures
            final(self).wf(),
            final(self)@.content == old(self)@.content,
            match r {
                Ok(m) => has_id(old(self)@.store.rows, id as int) && m@ == old(self)@.store.rows[index_of(old(self)@.store.rows, id as int)].meta && final(self)@.store == after_delete(old(self)@.store, id as int),
                Err(e) => !has_id(old(self)@.store.rows, id as int) && e is NotFound && final(self)@ == old(self)@,
            },
    {
        match self.post.delete(id) {
            Ok(m) => Ok(m),
            Err(e) => Err(ServiceError::from_repository(e)),
        }
    }

    /// Deletes the posts one after another, as `delete_one` does. Ids that
    /// are missing are skipped; the rows removed come back in order, with the
    /// last error met, if any, beside them.
    pub fn delete_many(&mut self, ids: &Vec<i32>) -> (r: (Vec<PostMeta>, Option<ServiceError>))
        requires
            old(self).wf(),
        ensures
            final(self).wf(),
            final(self)@.content == old(self)@.content,
            ({
                let (s, done, missed) = batch_delete(old(self)@.store, ids@);
                &&& final(self)@.store == s
                &&& metas(r.0@) == done
                &&& match r.1 {
                    Some(e) => missed && e is NotFound,
                    None => !missed,
                }
            }),
    {
        let mut done: Vec<PostMeta> = Vec::new();
        let mut last: Option<ServiceError> = None;
        let mut i: usize = 0;
        proof {
            assert(ids@.take(0) =~= Seq::<i32>::empty());
            assert(metas(done@) =~= Seq::<PostMetaView>::empty());
        }
        while i < ids.len()
            invariant
                self.wf(),
                i <= ids@.len(),
                self@.content == old(self)@.content,
                ({
                    let (s, d, missed) = batch_delete(old(self)@.store, ids@.take(i as int));
                    &&& self@.store == s
                    &&& metas(done@) == d
                    &&& match last {
                        Some(e) => missed && e is NotFound,
                        None => !missed,
                    }
                }),
            decreases ids@.len() - i,
        {
            proof {
                assert(ids@.take(i + 1).drop_last() =~= ids@.take(i as int));
                assert(ids@.take(i + 1).last() == ids@[i as int]);
            }
            match self.delete_one(ids[i]) {
                Ok(m) => {
                    let ghost before = metas(done@);
                    done.push(m);
                    proof {
                        assert(metas(done@) =~= before.push(m@));
                    }
                },
                Err(e) => {
                    last = Some(e);
                },
            }
            i = i + 1;
        }
        proof {
            assert(ids@.take(i as int) =~= ids@);
        }
        (done, last)
    }

    /// Lists a page of posts above the cursor (0 without one), counting one
    /// view of each; a negative page size is an internal error that changes
    /// nothing.
    pub fn list(&mut self, page_req: Pagenigation) -> (r: Result<Vec<PostMeta>, ServiceError>)
        requires
            old(self).wf(),
        ensures
            final(self).wf(),
            final(self)@.content == old(self)@.content,
            ({
                let c = start_after(page_req.cursor);
                let n = page_req.page_size as int;
                match r {
                    Ok(v) => n >= 0 && metas(v@) == page(old(self)@.store, c, n) && final(self)@.store == after_list(old(self)@.store, c, n),
                    Err(e) => n < 0 && e is InternalError && final(self)@ == old(self)@,
                }
            }),
    {
        let start = page_req.start_id();
        match self.post.list_pagenigation(start, page_req.page_size) {
            Ok(v) => Ok(v),
            Err(e) => Err(ServiceError::from_repository(e)),
        }
    }

    /// Gives post `id` a new title and tags; the title is cut into search
    /// tokens again, the modification time becomes `now` and one view is
    /// counted. `NotFound`, with nothing changed, when there is no such post.
    /// The content stays under the old title's path.
    pub fn update_one(&mut self, id: i32, title: String, tags: Vec<String>, now: i64) -> (r: Result<
        PostMeta,
        ServiceError,
    >)
        requires
            old(self).wf(),
        ensures
            final(self).wf(),
            final(self)@.content == old(self)@.content,
            match r {
                Ok(m) => has_id(old(self)@.store.rows, id as int) && m@ == revised(
                    old(self)@.store.rows[index_of(old(self)@.store.rows, id as int)].meta,
                    title@,
                    views(tags@),
                    now as int,
                ) && final(self)@.store == after_update(
                    old(self)@.store,
                    id as int,
                    title@,
                    views(tags@),
                    search_segments(title@),
                    now as int,
                ),
                Err(e) => !has_id(old(self)@.store.rows, id as int) && e is NotFound
                    && final(self)@ == old(self)@,
            },
    {
        let kw = self.jieba.cut(title.as_str());
        match self.post.update(PostMetaUpdate { id, title, tags, kw }, now) {
            Ok(m) => Ok(m),
            Err(e) => Err(ServiceError::from_repository(e)),
        }
    }

    /// Every tag some post carries, each once, in lexicographic order.
    pub fn list_all_tags(&self) -> (r: Vec<String>)
        requires
            self.wf(),
        ensures
            strictly_sorted(views(r@)),
            forall|t: Seq<char>| #[trigger] views(r@).contains(t) <==> has_tag(self@.store.rows, t),
    {
        self.post.list_all_tags()
    }

    /// The posts whose title tokens include every keyword; none for no keywords.
    pub fn find_by_keywords(&self, keywords: &Vec<String>) -> (r: Vec<PostMeta>)
        requires
            self.wf(),
        ensures
            metas(r@) == keyword_hits(self@.store.rows, views(keywords@)),
    {
        self.post.find_by_keywords(keywords)
    }

    /// The posts carrying every given tag; none for no tags.
    pub fn find_by_tags(&self, tags: &Vec<String>) -> (r: Vec<PostMeta>)
        requires
            self.wf(),
        ensures
            metas(r@) == tag_hits(self@.store.rows, views(tags@)),
    {
        self.post.find_by_tags(tags)
    }

    /// The path where the content of a post titled `title` is stored.
    pub fn build_file_path(&self, title: &str) -> (r: String)
        ensures
            r@ == file_path(self@.content.dir, title@),
    {
        self.files.build_path(title)
    }

    /// The content stored at `path`; `NotFound` when nothing stands there.
    pub fn read_file(&self, path: &str) -> (r: Result<Vec<u8>, ServiceError>)
        requires
            self.wf(),
        ensures
            match r {
                Ok(b) => self@.content.files.contains_key(path@) && b@ == self@.content.files[path@],
                Err(e) => !self@.content.files.contains_key(path@) && e is NotFound,
            },
    {
        self.files.read(path)
    }
}

} // verus!
