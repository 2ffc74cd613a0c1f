//! Post metadata rows, and a metadata store that keeps them in memory.
//!
//! Every fetch of a single post and every listing counts as a view: the rows
//! it returns have their view counter raised by one (the counter stops at
//! `i32::MAX`), and the rows handed back show the raised counter.
use super::ReponsitoryError;
use crate::text::{
    clone_strings, escape_quote_marks, escape_quotes, insert_sorted, join, join_with, strictly_sorted,
    views,
};
use vstd::prelude::*;

verus! {

/// A post's metadata row. Times are microseconds since the Unix epoch.
pub struct PostMeta {
    pub id: i32,
    pub title: String,
    pub tags: Vec<String>,
    pub first_publish: i64,
    pub last_modify: i64,
    pub count: i32,
}

/// A metadata row as a value: text as characters, tags as a list of them.
pub struct PostMetaView {
    pub id: int,
    pub title: Seq<char>,
    pub tags: Seq<Seq<char>>,
    pub first_publish: int,
    pub last_modify: int,
    pub count: int,
}

impl View for PostMeta {
    type V = PostMetaView;

    open spec fn view(&self) -> PostMetaView {
        PostMetaView {
            id: self.id as int,
            title: self.title@,
            tags: views(self.tags@),
            first_publish: self.first_publish as int,
            last_modify: self.last_modify as int,
            count: self.count as int,
        }
    }
}

impl PostMeta {
    /// A field-by-field copy.
    pub fn duplicate(&self) -> (r: PostMeta)
        ensures
            r@ == self@,
    {
        PostMeta {
            id: self.id,
            title: self.title.clone(),
            tags: clone_strings(&self.tags),
            first_publish: self.first_publish,
            last_modify: self.last_modify,
            count: self.count,
        }
    }
}

/// The metadata of a new post: its title, its tags, and the search tokens of
/// its title.
pub struct PostMetaCreate {
    pub title: String,
    pub tags: Vec<String>,
    pub kw: Vec<String>,
}

/// New metadata for the post `id`.
pub struct PostMetaUpdate {
    pub id: i32,
    pub title: String,
    pub tags: Vec<String>,
    pub kw: Vec<String>,
}

/// The views of a list of rows.
pub open spec fn metas(v: Seq<PostMeta>) -> Seq<PostMetaView> {
    v.map_values(|m: PostMeta| m@)
}

/// The text a search index is built from: the tokens joined by `&`.
pub fn index_text(kw: &Vec<String>) -> (r: String)
    ensures
        r@ == join(views(kw@), "&"@),
{
    join_with(kw, "&")
}

/// A keyword in the text-search query syntax: quoted, inner quotes doubled.
pub open spec fn quoted(k: Seq<char>) -> Seq<char> {
    "'"@ + escape_quotes(k) + "'"@
}

/// The keywords as one text-search query that asks for all of them.
pub open spec fn keyword_query_text(keywords: Seq<Seq<char>>) -> Seq<char> {
    join(keywords.map_values(|k: Seq<char>| quoted(k)), " & "@)
}

/// Builds the query that matches rows whose index holds every keyword.
pub fn keyword_query(keywords: &Vec<String>) -> (r: String)
    ensures
        r@ == keyword_query_text(views(keywords@)),
{
    let mut parts: Vec<String> = Vec::new();
    let mut i: usize = 0;
    while i < keywords.len()
        invariant
            i <= keywords.len(),
            views(parts@) == views(keywords@).take(i as int).map_values(
                |k: Seq<char>| quoted(k),
            ),
        decreases keywords.len() - i,
    {
        let mut q = String::from_str("'");
        let inner = escape_quote_marks(keywords[i].as_str());
        q.append(inner.as_str());
        q.append("'");
        let ghost before = views(parts@);
        parts.push(q);
        proof {
            assert(views(parts@) =~= before.push(q@));
            assert(views(keywords@).take(i + 1) =~= views(keywords@).take(i as int).push(
                keywords@[i as int]@,
            ));
            assert(views(keywords@).take(i + 1).map_values(|k: Seq<char>| quoted(k))
                =~= views(keywords@).take(i as int).map_values(|k: Seq<char>| quoted(k)).push(
                quoted(keywords@[i as int]@),
            ));
        }
        i = i + 1;
    }
    proof {
        assert(views(keywords@).take(i as int) =~= views(keywords@));
    }
    join_with(&parts, " & ")
}

/// The query a keyword search runs against a text-search index, or `None`
/// for an empty keyword list, which matches no row and needs no query.
pub fn keyword_filter(keywords: &Vec<String>) -> (r: Option<String>)
    ensures
        match r {
            Some(q) => keywords@.len() > 0 && q@ == keyword_query_text(views(keywords@)),
            None => keywords@.len() == 0,
        },
{
    if keywords.len() == 0 {
        None
    } else {
        Some(keyword_query(keywords))
    }
}

/// A stored row: the metadata and the search tokens of its title.
pub struct PostRow {
    pub meta: PostMeta,
    pub kw: Vec<String>,
}

/// A stored row as a value: its metadata and its title's search tokens.
pub struct RowView {
    pub meta: PostMetaView,
    pub kw: Seq<Seq<char>>,
}

impl View for PostRow {
    type V = RowView;

    open spec fn view(&self) -> RowView {
        RowView { meta: self.meta@, kw: views(self.kw@) }
    }
}

/// A metadata store as a value: its rows in store order and the next id it
/// hands out.
pub struct StoreView {
    pub rows: Seq<RowView>,
    pub next_id: int,
}

/// The view counter after one more view; it stops at `i32::MAX`.
pub open spec fn bump(c: int) -> int {
    if c < i32::MAX {
        c + 1
    } else {
        c
    }
}

/// A row's metadata after one more view.
pub open spec fn viewed(m: PostMetaView) -> PostMetaView {
    PostMetaView { count: bump(m.count), ..m }
}

pub open spec fn viewed_row(r: RowView) -> RowView {
    RowView { meta: viewed(r.meta), ..r }
}

/// Whether some row has the id.
pub open spec fn has_id(rows: Seq<RowView>, id: int) -> bool {
    exists|i: int| 0 <= i < rows.len() && rows[i].meta.id == id
}

/// The position of the row with the id.
pub open spec fn index_of(rows: Seq<RowView>, id: int) -> int {
    choose|i: int| 0 <= i < rows.len() && rows[i].meta.id == id
}

/// Ids strictly increase along the rows, stay below the next id to hand out,
/// and view counters are not negative.
pub open spec fn store_wf(s: StoreView) -> bool {
    &&& 1 <= s.next_id <= i32::MAX + 1
    &&& forall|i: int| 0 <= i < s.rows.len() ==> 1 <= #[trigger] s.rows[i].meta.id < s.next_id
    &&& forall|i: int| 0 <= i < s.rows.len() ==> 0 <= #[trigger] s.rows[i].meta.count
    &&& forall|i: int, j: int|
        0 <= i < j < s.rows.len() ==> #[trigger] s.rows[i].meta.id < #[trigger] s.rows[j].meta.id
}

/// Whether an id is left to hand out.
pub open spec fn can_add(s: StoreView) -> bool {
    s.next_id <= i32::MAX
}

/// The row a successful create makes.
pub open spec fn created(
    s: StoreView,
    title: Seq<char>,
    tags: Seq<Seq<char>>,
    now: int,
) -> PostMetaView {
    PostMetaView { id: s.next_id, title, tags, first_publish: now, last_modify: now, count: 0 }
}

pub open spec fn after_add(
    s: StoreView,
    title: Seq<char>,
    tags: Seq<Seq<char>>,
    kw: Seq<Seq<char>>,
    now: int,
) -> StoreView {
    StoreView {
        rows: s.rows.push(RowView { meta: created(s, title, tags, now), kw }),
        next_id: s.next_id + 1,
    }
}

/// The store after the row `id` is viewed once.
pub open spec fn after_view(s: StoreView, id: int) -> StoreView {
    let i = index_of(s.rows, id);
    StoreView { rows: s.rows.update(i, viewed_row(s.rows[i])), ..s }
}

/// A row's metadata after an update: new title and tags, a new modification
/// time, and one more view.
pub open spec fn revised(
    m: PostMetaView,
    title: Seq<char>,
    tags: Seq<Seq<char>>,
    now: int,
) -> PostMetaView {
    PostMetaView { title, tags, last_modify: now, count: bump(m.count), ..m }
}

pub open spec fn after_update(
    s: StoreView,
    id: int,
    title: Seq<char>,
    tags: Seq<Seq<char>>,
    kw: Seq<Seq<char>>,
    now: int,
) -> StoreView {
    let i = index_of(s.rows, id);
    StoreView {
        rows: s.rows.update(i, RowView { meta: revised(s.rows[i].meta, title, tags, now), kw }),
        ..s
    }
}

pub open spec fn after_delete(s: StoreView, id: int) -> StoreView {
    StoreView { rows: s.rows.remove(index_of(s.rows, id)), ..s }
}

/// Whether `k` parts the rows into those with ids up to `cursor` and those above it.
pub open spec fn parts_at(rows: Seq<RowView>, cursor: int, k: int) -> bool {
    &&& 0 <= k <= rows.len()
    &&& forall|i: int| 0 <= i < k ==> #[trigger] rows[i].meta.id <= cursor
    &&& forall|i: int| k <= i < rows.len() ==> #[trigger] rows[i].meta.id > cursor
}

/// Where the rows above `cursor` begin.
pub open spec fn page_start(rows: Seq<RowView>, cursor: int) -> int {
    choose|k: int| parts_at(rows, cursor, k)
}

/// Where a page of at most `size` rows above `cursor` ends.
pub open spec fn page_end(rows: Seq<RowView>, cursor: int, size: int) -> int {
    let k = page_start(rows, cursor);
    if k + size < rows.len() {
        k + size
    } else {
        rows.len() as int
    }
}

/// The rows a listing returns, each after its view.
pub open spec fn page(s: StoreView, cursor: int, size: int) -> Seq<PostMetaView> {
    let k = page_start(s.rows, cursor);
    let e = page_end(s.rows, cursor, size);
    Seq::new((e - k) as nat, |j: int| viewed(s.rows[k + j].meta))
}

pub open spec fn after_list(s: StoreView, cursor: int, size: int) -> StoreView {
    let k = page_start(s.rows, cursor);
    let e = page_end(s.rows, cursor, size);
    StoreView {
        rows: Seq::new(
            s.rows.len(),
            |i: int|
                if k <= i < e {
                    viewed_row(s.rows[i])
                } else {
                    s.rows[i]
                },
        ),
        ..s
    }
}

/// Whether every wanted item is among those held.
pub open spec fn holds_all(have: Seq<Seq<char>>, want: Seq<Seq<char>>) -> bool {
    forall|j: int| 0 <= j < want.len() ==> have.contains(#[trigger] want[j])
}

/// The metadata of each row.
pub open spec fn metas_of(rows: Seq<RowView>) -> Seq<PostMetaView> {
    rows.map_values(|r: RowView| r.meta)
}

/// The rows whose search index holds every keyword, in store order. A row's
/// index is the list of its title's tokens, and a keyword is held when a token
/// equals it.
pub open spec fn keyword_rows(rows: Seq<RowView>, keywords: Seq<Seq<char>>) -> Seq<RowView>
    decreases rows.len(),
{
    if rows.len() == 0 {
        Seq::empty()
    } else {
        let earlier = keyword_rows(rows.drop_last(), keywords);
        if holds_all(rows.last().kw, keywords) {
            earlier.push(rows.last())
        } else {
            earlier
        }
    }
}

/// The rows whose tags include every given tag, in store order.
pub open spec fn tag_rows(rows: Seq<RowView>, tags: Seq<Seq<char>>) -> Seq<RowView>
    decreases rows.len(),
{
    if rows.len() == 0 {
        Seq::empty()
    } else {
        let earlier = tag_rows(rows.drop_last(), tags);
        if holds_all(rows.last().meta.tags, tags) {
            earlier.push(rows.last())
        } else {
            earlier
        }
    }
}

/// What a keyword search returns: no rows for no keywords.
pub open spec fn keyword_hits(rows: Seq<RowView>, keywords: Seq<Seq<char>>) -> Seq<PostMetaView> {
    if keywords.len() == 0 {
        Seq::empty()
    } else {
        metas_of(keyword_rows(rows, keywords))
    }
}

/// What a tag search returns: no rows for no tags.
pub open spec fn tag_hits(rows: Seq<RowView>, tags: Seq<Seq<char>>) -> Seq<PostMetaView> {
    if tags.len() == 0 {
        Seq::empty()
    } else {
        metas_of(tag_rows(rows, tags))
    }
}

proof fn lemma_metas_push(rows: Seq<RowView>, r: RowView)
    ensures
        metas_of(rows.push(r)) == metas_of(rows).push(r.meta),
{
    assert(metas_of(rows.push(r)) =~= metas_of(rows).push(r.meta));
}

/// Whether some row carries the tag.
pub open spec fn has_tag(rows: Seq<RowView>, t: Seq<char>) -> bool {
    exists|i: int, j: int|
        0 <= i < rows.len() && 0 <= j < rows[i].meta.tags.len() && #[trigger] rows[i].meta.tags[j]
            == t
}

proof fn lemma_index_of(rows: Seq<RowView>, id: int, i: int)
    requires
        0 <= i < rows.len(),
        rows[i].meta.id == id,
        forall|a: int, b: int|
            0 <= a < b < rows.len() ==> #[trigger] rows[a].meta.id < #[trigger] rows[b].meta.id,
    ensures
        has_id(rows, id),
        index_of(rows, id) == i,
{
    let j = index_of(rows, id);
    if j < i {
        assert(rows[j].meta.id < rows[i].meta.id);
    } else if i < j {
        assert(rows[i].meta.id < rows[j].meta.id);
    }
}

proof fn lemma_page_start(rows: Seq<RowView>, cursor: int, k: int)
    requires
        parts_at(rows, cursor, k),
    ensures
        page_start(rows, cursor) == k,
{
    let c = page_start(rows, cursor);
    assert(parts_at(rows, cursor, c));
    if c < k {
        assert(rows[c].meta.id <= cursor);
    } else if k < c {
        assert(rows[k].meta.id <= cursor);
    }
}

/// Whether `want` is among `have`.
fn holds(have: &Vec<String>, want: &String) -> (r: bool)
    ensures
        r == views(have@).contains(want@),
{
    let mut i: usize = 0;
    while i < have.len()
        invariant
            i <= have.len(),
            forall|j: int| 0 <= j < i ==> have@[j]@ != want@,
        decreases have.len() - i,
    {
        if have[i] == *want {
            proof {
                assert(views(have@)[i as int] == want@);
            }
            return true;
        }
        i = i + 1;
    }
    proof {
        if views(have@).contains(want@) {
            let j = choose|j: int| 0 <= j < views(have@).len() && views(have@)[j] == want@;
            assert(have@[j]@ == want@);
        }
    }
    false
}

/// Whether every wanted item is among `have`.
fn holds_every(have: &Vec<String>, want: &Vec<String>) -> (r: bool)
    ensures
        r == holds_all(views(have@), views(want@)),
{
    let mut i: usize = 0;
    while i < want.len()
        invariant
            i <= want.len(),
            forall|j: int| 0 <= j < i ==> views(have@).contains(#[trigger] views(want@)[j]),
        decreases want.len() - i,
    {
        if !holds(have, &want[i]) {
            proof {
                assert(views(want@)[i as int] == want@[i as int]@);
            }
            return false;
        }
        i = i + 1;
    }
    true
}

/// Post metadata kept in memory, in increasing id order.
pub struct MemoryPostStore {
    rows: Vec<PostRow>,
    next_id: i64,
}

impl View for MemoryPostStore {
    type V = StoreView;

    closed spec fn view(&self) -> StoreView {
        StoreView { rows: self.rows@.map_values(|r: PostRow| r@), next_id: self.next_id as int }
    }
}

impl MemoryPostStore {
    pub open spec fn wf(&self) -> bool {
        store_wf(self@)
    }

    /// An empty store; the first id it hands out is 1.
    pub fn new() -> (r: MemoryPostStore)
        ensures
            r.wf(),
            r@.rows.len() == 0,
            r@.next_id == 1,
    {
        MemoryPostStore { rows: Vec::new(), next_id: 1 }
    }

    /// The number of rows held.
    pub fn len(&self) -> (r: usize)
        ensures
            r == self@.rows.len(),
    {
        self.rows.len()
    }

    /// Finds where the row `id` stands.
    fn position(&self, id: i32) -> (r: Option<usize>)
        requires
            self.wf(),
        ensures
            match r {
                Some(i) => has_id(self@.rows, id as int) && i == index_of(self@.rows, id as int),
                None => !has_id(self@.rows, id as int),
            },
    {
        let mut i: usize = 0;
        while i < self.rows.len()
            invariant
                self.wf(),
                i <= self.rows.len(),
                forall|j: int| 0 <= j < i ==> self@.rows[j].meta.id != id,
            decreases self.rows.len() - i,
        {
            if self.rows[i].meta.id == id {
                proof {
                    lemma_index_of(self@.rows, id as int, i as int);
                }
                return Some(i);
            }
            i = i + 1;
        }
        None
    }

    /// Counts one view of the row at `i` and returns the row as it now stands.
    fn view_at(&mut self, i: usize) -> (r: PostMeta)
        requires
            old(self).wf(),
            i < old(self)@.rows.len(),
        ensures
            final(self).wf(),
            final(self)@ == (StoreView {
                rows: old(self)@.rows.update(i as int, viewed_row(old(self)@.rows[i as int])),
                ..old(self)@
            }),
            r@ == viewed(old(self)@.rows[i as int].meta),
    {
        let c = self.rows[i].meta.count;
        let n = if c < i32::MAX {
            c + 1
        } else {
            c
        };
        let ghost before = self.rows@;
        self.rows[i].meta.count = n;
        proof {
            assert(self.rows@ == before.update(i as int, self.rows@[i as int]));
            assert(self@.rows =~= old(self)@.rows.update(
                i as int,
                viewed_row(old(self)@.rows[i as int]),
            ));
        }
        self.rows[i].meta.duplicate()
    }

    /// Creates a row with the next id, no views, and `now` as both its
    /// publication and modification time. Fails with a database error, and
    /// changes nothing, once every id has been handed out.
    pub fn add(&mut self, post: PostMetaCreate, now: i64) -> (r: Result<PostMeta, ReponsitoryError>)
        requires
            old(self).wf(),
        ensures
            final(self).wf(),
            match r {
                Ok(m) => can_add(old(self)@) && m@ == created(
                    old(self)@,
                    post.title@,
                    views(post.tags@),
                    now as int,
                ) && final(self)@ == after_add(
                    old(self)@,
                    post.title@,
                    views(post.tags@),
                    views(post.kw@),
                    now as int,
                ),
                Err(e) => !can_add(old(self)@) && e is DataBaseError && final(self)@ == old(self)@,
            },
    {
        if self.next_id > i32::MAX as i64 {
            return Err(ReponsitoryError::DataBaseError(String::from_str("no id is left to assign")));
        }
        let id = self.next_id as i32;
        let meta = PostMeta {
            id,
            title: post.title,
            tags: post.tags,
            first_publish: now,
            last_modify: now,
            count: 0,
        };
        let out = meta.duplicate();
        let ghost before = self@;
        self.rows.push(PostRow { meta, kw: post.kw });
        self.next_id = self.next_id + 1;
        proof {
            assert(self@.rows =~= before.rows.push(self@.rows.last()));
            assert(self@ =~= after_add(
                before,
                post.title@,
                views(post.tags@),
                views(post.kw@),
                now as int,
            ));
        }
        Ok(out)
    }

    /// Fetches the row `id`, counting one view; fails with `NotFound`, and
    /// changes nothing, when no row has that id.
    pub fn find_by_id(&mut self, id: i32) -> (r: Result<PostMeta, ReponsitoryError>)
        requires
            old(self).wf(),
        ensures
            final(self).wf(),
            match r {
                Ok(m) => has_id(old(self)@.rows, id as int) && m@ == viewed(
                    old(self)@.rows[index_of(old(self)@.rows, id as int)].meta,
                ) && final(self)@ == after_view(old(self)@, id as int),
                Err(e) => !has_id(old(self)@.rows, id as int) && e is NotFound && final(self)@
                    == old(self)@,
            },
    {
        match self.position(id) {
            Some(i) => Ok(self.view_at(i)),
            None => Err(ReponsitoryError::NotFound),
        }
    }

    /// Replaces the title, tags and search tokens of the row `id`, sets its
    /// modification time to `now` and counts one view; fails with `NotFound`,
    /// and changes nothing, when no row has that id.
    pub fn update(&mut self, post: PostMetaUpdate, now: i64) -> (r: Result<PostMeta, ReponsitoryError>)
        requires
            old(self).wf(),
        ensures
            final(self).wf(),
            match r {
                Ok(m) => has_id(old(self)@.rows, post.id as int) && m@ == revised(
                    old(self)@.rows[index_of(old(self)@.rows, post.id as int)].meta,
                    post.title@,
                    views(post.tags@),
                    now as int,
                ) && final(self)@ == after_update(
                    old(self)@,
                    post.id as int,
                    post.title@,
                    views(post.tags@),
                    views(post.kw@),
                    now as int,
                ),
                Err(e) => !has_id(old(self)@.rows, post.id as int) && e is NotFound
                    && final(self)@ == old(self)@,
            },
    {
        match self.position(post.id) {
            None => Err(ReponsitoryError::NotFound),
            Some(i) => {
                let c = self.rows[i].meta.count;
                let n = if c < i32::MAX {
                    c + 1
                } else {
                    c
                };
                let old_row = self.rows.remove(i);
                let meta = PostMeta {
                    id: old_row.meta.id,
                    title: post.title,
                    tags: post.tags,
                    first_publish: old_row.meta.first_publish,
                    last_modify: now,
                    count: n,
                };
                let out = meta.duplicate();
                self.rows.insert(i, PostRow { meta, kw: post.kw });
                proof {
                    assert(self.rows@ =~= old(self).rows@.update(i as int, self.rows@[i as int]));
                    assert(self@.rows =~= old(self)@.rows.update(
                        i as int,
                        RowView {
                            meta: revised(
                                old(self)@.rows[i as int].meta,
                                post.title@,
                                views(post.tags@),
                                now as int,
                            ),
                            kw: views(post.kw@),
                        },
                    ));
                }
                Ok(out)
            },
        }
    }

    /// Removes the row `id` and returns it as it stood; fails with `NotFound`,
    /// and changes nothing, when no row has that id.
    pub fn delete(&mut self, id: i32) -> (r: Result<PostMeta, ReponsitoryError>)
        requires
            old(self).wf(),
        ensures
            final(self).wf(),
            match r {
                Ok(m) => has_id(old(self)@.rows, id as int) && m@ == old(self)@.rows[index_of(
                    old(self)@.rows,
                    id as int,
                )].meta && final(self)@ == after_delete(old(self)@, id as int),
                Err(e) => !has_id(old(self)@.rows, id as int) && e is NotFound && final(self)@
                    == old(self)@,
            },
    {
        match self.position(id) {
            None => Err(ReponsitoryError::NotFound),
            Some(i) => {
                let gone = self.rows.remove(i);
                proof {
                    assert(self@.rows =~= old(self)@.rows.remove(i as int));
                    assert forall|a: int, b: int|
                        0 <= a < b < self@.rows.len() implies #[trigger] self@.rows[a].meta.id
                        < #[trigger] self@.rows[b].meta.id by {
                        let a0 = if a < i { a } else { a + 1 };
                        let b0 = if b < i { b } else { b + 1 };
                        assert(old(self)@.rows[a0].meta.id < old(self)@.rows[b0].meta.id);
                    }
                }
                Ok(gone.meta)
            },
        }
    }

    /// Lists up to `page_size` rows whose id is above `start_id`, in increasing
    /// id order, counting one view of each. A negative page size is a database
    /// error that changes nothing.
    pub fn list_pagenigation(&mut self, start_id: i32, page_size: i32) -> (r: Result<
        Vec<PostMeta>,
        ReponsitoryError,
    >)
        requires
            old(self).wf(),
        ensures
            final(self).wf(),
            match r {
                Ok(v) => page_size >= 0 && metas(v@) == page(
                    old(self)@,
                    start_id as int,
                    page_size as int,
                ) && final(self)@ == after_list(old(self)@, start_id as int, page_size as int),
                Err(e) => page_size < 0 && e is DataBaseError && final(self)@ == old(self)@,
            },
    {
        if page_size < 0 {
            return Err(ReponsitoryError::DataBaseError(String::from_str("LIMIT must not be negative")));
        }
        let n = self.rows.len();
        let mut k: usize = 0;
        while k < n && self.rows[k].meta.id <= start_id
            invariant
                self.wf(),
                n == self@.rows.len(),
                k <= n,
                forall|i: int| 0 <= i < k ==> #[trigger] self@.rows[i].meta.id <= start_id,
            decreases n - k,
        {
            k = k + 1;
        }
        proof {
            assert forall|i: int| k <= i < n implies #[trigger] self@.rows[i].meta.id > start_id by {
                if k < i {
                    assert(self@.rows[k as int].meta.id < self@.rows[i].meta.id);
                }
            }
            assert(parts_at(self@.rows, start_id as int, k as int));
            lemma_page_start(self@.rows, start_id as int, k as int);
        }
        let e: usize = if (page_size as usize) < n - k {
            k + page_size as usize
        } else {
            n
        };
        let ghost start = self@;
        let mut out: Vec<PostMeta> = Vec::new();
        let mut i: usize = k;
        proof {
            assert(start.rows =~= Seq::new(
                start.rows.len(),
                |j: int|
                    if k <= j < k {
                        viewed_row(start.rows[j])
                    } else {
                        start.rows[j]
                    },
            ));
        }
        while i < e
            invariant
                self.wf(),
                k <= i <= e <= n,
                n == start.rows.len(),
                e == page_end(start.rows, start_id as int, page_size as int),
                k == page_start(start.rows, start_id as int),
                self@.next_id == start.next_id,
                self@.rows == Seq::new(
                    start.rows.len(),
                    |j: int|
                        if k <= j < i {
                            viewed_row(start.rows[j])
                        } else {
                            start.rows[j]
                        },
                ),
                metas(out@) == Seq::new((i - k) as nat, |j: int| viewed(start.rows[k + j].meta)),
            decreases e - i,
        {
            let m = self.view_at(i);
            let ghost before = metas(out@);
            out.push(m);
            proof {
                assert(metas(out@) =~= before.push(m@));
                assert(metas(out@) =~= Seq::new(
                    (i + 1 - k) as nat,
                    |j: int| viewed(start.rows[k + j].meta),
                ));
                assert(self@.rows =~= Seq::new(
                    start.rows.len(),
                    |j: int|
                        if k <= j < i + 1 {
                            viewed_row(start.rows[j])
                        } else {
                            start.rows[j]
                        },
                ));
            }
            i = i + 1;
        }
        proof {
            assert(self@ =~= after_list(start, start_id as int, page_size as int));
            assert(metas(out@) =~= page(start, start_id as int, page_size as int));
        }
        Ok(out)
    }

    /// The rows whose search index holds every keyword, in store order; no
    /// rows at all for an empty keyword list.
    pub fn find_by_keywords(&self, keywords: &Vec<String>) -> (r: Vec<PostMeta>)
        requires
            self.wf(),
        ensures
            metas(r@) == keyword_hits(self@.rows, views(keywords@)),
    {
        let mut out: Vec<PostMeta> = Vec::new();
        if keywords.len() == 0 {
            proof {
                assert(metas(out@) =~= Seq::<PostMetaView>::empty());
            }
            return out;
        }
        let mut i: usize = 0;
        proof {
            assert(self@.rows.take(0) =~= Seq::<RowView>::empty());
            assert(metas(out@) =~= metas_of(Seq::<RowView>::empty()));
        }
        while i < self.rows.len()
            invariant
                i <= self@.rows.len(),
                metas(out@) == metas_of(keyword_rows(self@.rows.take(i as int), views(keywords@))),
            decreases self@.rows.len() - i,
        {
            proof {
                assert(self@.rows.take(i + 1).drop_last() =~= self@.rows.take(i as int));
                assert(self@.rows.take(i + 1).last() == self@.rows[i as int]);
            }
            if holds_every(&self.rows[i].kw, keywords) {
                let m = self.rows[i].meta.duplicate();
                let ghost before = metas(out@);
                out.push(m);
                proof {
                    assert(metas(out@) =~= before.push(m@));
                    lemma_metas_push(
                        keyword_rows(self@.rows.take(i as int), views(keywords@)),
                        self@.rows[i as int],
                    );
                }
            }
            i = i + 1;
        }
        proof {
            assert(self@.rows.take(i as int) =~= self@.rows);
        }
        out
    }

    /// The rows whose tags include every given tag, in store order; no rows
    /// at all for an empty tag list.
    pub fn find_by_tags(&self, tags: &Vec<String>) -> (r: Vec<PostMeta>)
        requires
            self.wf(),
        ensures
            metas(r@) == tag_hits(self@.rows, views(tags@)),
    {
        let mut out: Vec<PostMeta> = Vec::new();
        if tags.len() == 0 {
            proof {
                assert(metas(out@) =~= Seq::<PostMetaView>::empty());
            }
            return out;
        }
        let mut i: usize = 0;
        proof {
            assert(self@.rows.take(0) =~= Seq::<RowView>::empty());
            assert(metas(out@) =~= metas_of(Seq::<RowView>::empty()));
        }
        while i < self.rows.len()
            invariant
                i <= self@.rows.len(),
                metas(out@) == metas_of(tag_rows(self@.rows.take(i as int), views(tags@))),
            decreases self@.rows.len() - i,
        {
            proof {
                assert(self@.rows.take(i + 1).drop_last() =~= self@.rows.take(i as int));
                assert(self@.rows.take(i + 1).last() == self@.rows[i as int]);
            }
            if holds_every(&self.rows[i].meta.tags, tags) {
                let m = self.rows[i].meta.duplicate();
                let ghost before = metas(out@);
                out.push(m);
                proof {
                    assert(metas(out@) =~= before.push(m@));
                    lemma_metas_push(
                        tag_rows(self@.rows.take(i as int), views(tags@)),
                        self@.rows[i as int],
                    );
                }
            }
            i = i + 1;
        }
        proof {
            assert(self@.rows.take(i as int) =~= self@.rows);
        }
        out
    }
    /// Every tag some row carries, each once, in lexicographic order.
    pub fn list_all_tags(&self) -> (r: Vec<String>)
        ensures
            strictly_sorted(views(r@)),
            forall|t: Seq<char>| #[trigger] views(r@).contains(t) <==> has_tag(self@.rows, t),
    {
        let mut out: Vec<String> = Vec::new();
        let mut i: usize = 0;
        while i < self.rows.len()
            invariant
                i <= self@.rows.len(),
                strictly_sorted(views(out@)),
                forall|t: Seq<char>|
                    #[trigger] views(out@).contains(t) <==> exists|a: int, b: int|
                        0 <= a < i && 0 <= b < self@.rows[a].meta.tags.len()
                            && #[trigger] self@.rows[a].meta.tags[b] == t,
            decreases self@.rows.len() - i,
        {
            let tags = &self.rows[i].meta.tags;
            let mut j: usize = 0;
            while j < tags.len()
                invariant
                    i < self@.rows.len(),
                    views(tags@) == self@.rows[i as int].meta.tags,
                    j <= tags@.len(),
                    strictly_sorted(views(out@)),
                    forall|t: Seq<char>|
                        #[trigger] views(out@).contains(t) <==> ((exists|a: int, b: int|
                            0 <= a < i && 0 <= b < self@.rows[a].meta.tags.len()
                                && #[trigger] self@.rows[a].meta.tags[b] == t) || (exists|b: int|
                            0 <= b < j && #[trigger] self@.rows[i as int].meta.tags[b] == t)),
                decreases tags@.len() - j,
            {
                let t = tags[j].clone();
                proof {
                    assert(self@.rows[i as int].meta.tags[j as int] == t@);
                }
                insert_sorted(&mut out, t);
                j = j + 1;
            }
            proof {
                assert forall|t: Seq<char>| #[trigger] views(out@).contains(t) <==> exists|
                    a: int,
                    b: int,
                |
                    0 <= a < i + 1 && 0 <= b < self@.rows[a].meta.tags.len()
                        && #[trigger] self@.rows[a].meta.tags[b] == t by {
                    if exists|a: int, b: int|
                        0 <= a < i + 1 && 0 <= b < self@.rows[a].meta.tags.len()
                            && #[trigger] self@.rows[a].meta.tags[b] == t {
                        let (a, b) = choose|a: int, b: int|
                            0 <= a < i + 1 && 0 <= b < self@.rows[a].meta.tags.len()
                                && #[trigger] self@.rows[a].meta.tags[b] == t;
                        if a == i {
                            assert(self@.rows[i as int].meta.tags[b] == t);
                        }
                    }
                }
            }
            i = i + 1;
        }
        out
    }
}

proof fn lemma_parts_exist(rows: Seq<RowView>, cursor: int)
    requires
        forall|a: int, b: int|
            0 <= a < b < rows.len() ==> #[trigger] rows[a].meta.id < #[trigger] rows[b].meta.id,
    ensures
        exists|k: int| parts_at(rows, cursor, k),
    decreases rows.len(),
{
    if rows.len() == 0 {
        assert(parts_at(rows, cursor, 0));
    } else {
        let front = rows.drop_last();
        assert forall|a: int, b: int|
            0 <= a < b < front.len() implies #[trigger] front[a].meta.id
            < #[trigger] front[b].meta.id by {
            assert(rows[a].meta.id < rows[b].meta.id);
        }
        lemma_parts_exist(front, cursor);
        let k = choose|k: int| parts_at(front, cursor, k);
        let n = rows.len() - 1;
        assert forall|i: int| 0 <= i < n implies #[trigger] rows[i] == front[i] by {}
        if k == n && rows[n].meta.id <= cursor {
            assert forall|i: int| 0 <= i < n + 1 implies #[trigger] rows[i].meta.id <= cursor by {
                if i < n {
                    assert(front[i].meta.id <= cursor);
                }
            }
            assert(parts_at(rows, cursor, n + 1));
        } else {
            assert forall|i: int| 0 <= i < k implies #[trigger] rows[i].meta.id <= cursor by {
                assert(front[i].meta.id <= cursor);
            }
            assert forall|i: int| k <= i < rows.len() implies #[trigger] rows[i].meta.id
                > cursor by {
                if i < n {
                    assert(front[i].meta.id > cursor);
                } else if k < n {
                    assert(front[k].meta.id > cursor);
                    assert(rows[k].meta.id < rows[n].meta.id);
                }
            }
            assert(parts_at(rows, cursor, k));
        }
    }
}

/// The store, the rows removed and whether some id was missing, after
/// deleting the ids one after another. A missing id, including one deleted
/// earlier in the same list, is skipped.
pub open spec fn batch_delete(s: StoreView, ids: Seq<i32>) -> (StoreView, Seq<PostMetaView>, bool)
    decreases ids.len(),
{
    if ids.len() == 0 {
        (s, Seq::empty(), false)
    } else {
        let (s1, done, missed) = batch_delete(s, ids.drop_last());
        let id = ids.last() as int;
        if has_id(s1.rows, id) {
            (after_delete(s1, id), done.push(s1.rows[index_of(s1.rows, id)].meta), missed)
        } else {
            (s1, done, true)
        }
    }
}

/// A keyword or tag search with nothing to look for finds nothing, whatever
/// the store holds.
pub proof fn lemma_empty_filters_match_nothing(rows: Seq<RowView>)
    ensures
        keyword_hits(rows, Seq::empty()).len() == 0,
        tag_hits(rows, Seq::empty()).len() == 0,
{
}

/// A page holds at most `size` rows, each with an id above `cursor`, in
/// strictly increasing id order; it starts where the rows above `cursor` start.
pub proof fn lemma_page_shape(s: StoreView, cursor: int, size: int)
    requires
        store_wf(s),
        size >= 0,
    ensures
        parts_at(s.rows, cursor, page_start(s.rows, cursor)),
        page(s, cursor, size).len() <= size,
        forall|j: int| 0 <= j < page(s, cursor, size).len() ==> #[trigger] page(s, cursor, size)[j].id > cursor,
        forall|i: int, j: int|
            0 <= i < j < page(s, cursor, size).len() ==> #[trigger] page(s, cursor, size)[i].id
                < #[trigger] page(s, cursor, size)[j].id,
{
    lemma_parts_exist(s.rows, cursor);
    let k = page_start(s.rows, cursor);
    assert(parts_at(s.rows, cursor, k));
    let p = page(s, cursor, size);
    assert forall|j: int| 0 <= j < p.len() implies #[trigger] p[j].id > cursor by {
        assert(s.rows[k + j].meta.id > cursor);
    }
    assert forall|i: int, j: int| 0 <= i < j < p.len() implies #[trigger] p[i].id
        < #[trigger] p[j].id by {
        assert(s.rows[k + i].meta.id < s.rows[k + j].meta.id);
    }
}

/// Reading a post right after creating it gives back the title and tags it
/// was created with, in the same order, with one view counted.
pub proof fn lemma_read_after_add(
    s: StoreView,
    title: Seq<char>,
    tags: Seq<Seq<char>>,
    kw: Seq<Seq<char>>,
    now: int,
)
    requires
        store_wf(s),
        can_add(s),
    ensures
        ({
            let s2 = after_add(s, title, tags, kw, now);
            let id = created(s, title, tags, now).id;
            let m = viewed(s2.rows[index_of(s2.rows, id)].meta);
            &&& store_wf(s2)
            &&& has_id(s2.rows, id)
            &&& m.id == id
            &&& m.title == title
            &&& m.tags == tags
            &&& m.count == 1
        }),
{
    let s2 = after_add(s, title, tags, kw, now);
    let id = created(s, title, tags, now).id;
    let n = s.rows.len() as int;
    assert forall|a: int, b: int|
        0 <= a < b < s2.rows.len() implies #[trigger] s2.rows[a].meta.id
        < #[trigger] s2.rows[b].meta.id by {
        if b < n {
            assert(s.rows[a].meta.id < s.rows[b].meta.id);
        } else {
            assert(s.rows[a].meta.id < s.next_id);
        }
    }
    assert(s2.rows[n].meta.id == id);
    lemma_index_of(s2.rows, id, n);
}

} // verus!
