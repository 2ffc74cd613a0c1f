//! Post content kept in memory under derived paths, written once per path.
use crate::service::{FileFault, FileFaultView, ServiceError, ServiceErrorView};
use vstd::prelude::*;

verus! {

/// Where the content of a post titled `title` is stored under `dir`, by the
/// Unix rule of `Path::join`: an absolute title stands for itself, otherwise a
/// separator goes between the two unless `dir` is empty or already ends in one.
/// The title is neither escaped nor checked.
pub open spec fn file_path(dir: Seq<char>, title: Seq<char>) -> Seq<char> {
    if title.len() > 0 && title[0] == '/' {
        title
    } else if dir.len() == 0 || dir.last() == '/' {
        dir + title
    } else {
        dir + seq!['/'] + title
    }
}

/// Joins `title` to `dir` as `file_path` says.
pub fn join_path(dir: &str, title: &str) -> (r: String)
    ensures
        r@ == file_path(dir@, title@),
{
    proof {
        reveal_strlit("/");
    }
    let t = title.unicode_len();
    if t > 0 && title.get_char(0) == '/' {
        return String::from_str(title);
    }
    let d = dir.unicode_len();
    let mut out = String::from_str(dir);
    if d > 0 && dir.get_char(d - 1) != '/' {
        out.append("/");
    }
    out.append(title);
    out
}

struct Blob {
    path: String,
    bytes: Vec<u8>,
}

/// A content store as a value: its directory and what stands at each path.
pub struct ContentView {
    pub dir: Seq<char>,
    pub files: Map<Seq<char>, Seq<u8>>,
}

/// Content stored by path under one directory.
pub struct ContentStore {
    dir: String,
    blobs: Vec<Blob>,
    files: Ghost<Map<Seq<char>, Seq<u8>>>,
}

impl View for ContentStore {
    type V = ContentView;

    closed spec fn view(&self) -> ContentView {
        ContentView { dir: self.dir@, files: self.files@ }
    }
}

impl ContentStore {
    pub closed spec fn wf(&self) -> bool {
        &&& forall|p: Seq<char>|
            #[trigger] self.files@.contains_key(p) <==> exists|i: int|
                0 <= i < self.blobs@.len() && #[trigger] self.blobs@[i].path@ == p
        &&& forall|i: int|
            0 <= i < self.blobs@.len() ==> self.files@[#[trigger] self.blobs@[i].path@]
                == self.blobs@[i].bytes@
    }

    /// An empty store under `dir`.
    pub fn new(dir: &str) -> (r: ContentStore)
        ensures
            r.wf(),
            r@.dir == dir@,
            r@.files == Map::<Seq<char>, Seq<u8>>::empty(),
    {
        ContentStore { dir: String::from_str(dir), blobs: Vec::new(), files: Ghost(Map::empty()) }
    }

    /// The path the content of a post titled `title` is stored at.
    pub fn build_path(&self, title: &str) -> (r: String)
        ensures
            r@ == file_path(self@.dir, title@),
    {
        join_path(self.dir.as_str(), title)
    }

    fn find(&self, path: &String) -> (r: Option<usize>)
        requires
            self.wf(),
        ensures
            match r {
                Some(i) => i < self.blobs@.len() && self.blobs@[i as int].path@ == path@
                    && self@.files.contains_key(path@),
                None => !self@.files.contains_key(path@),
            },
    {
        let mut i: usize = 0;
        while i < self.blobs.len()
            invariant
                self.wf(),
                i <= self.blobs@.len(),
                forall|j: int| 0 <= j < i ==> self.blobs@[j].path@ != path@,
            decreases self.blobs@.len() - i,
        {
            if self.blobs[i].path == *path {
                proof {
                    assert(self.blobs@[i as int].path@ == path@);
                    assert(self.files@.contains_key(path@));
                }
                return Some(i);
            }
            i = i + 1;
        }
        None
    }

    /// Stores `bytes` as the content of the post titled `title`. Content is
    /// written once: when something already stands at the derived path the
    /// write fails and what stands there is kept as it was.
    pub fn write(&mut self, title: &str, bytes: Vec<u8>) -> (r: Result<(), ServiceError>)
        requires
            old(self).wf(),
        ensures
            final(self).wf(),
            final(self)@.dir == old(self)@.dir,
            ({
                let p = file_path(old(self)@.dir, title@);
                match r {
                    Ok(_) => !old(self)@.files.contains_key(p) && final(self)@.files == old(self)@.files.insert(p, bytes@),
                    Err(e) => old(self)@.files.contains_key(p) && e@ == ServiceErrorView::FileError(
                        FileFaultView::AlreadyExists,
                    ) && final(self)@ == old(self)@,
                }
            }),
    {
        let path = self.build_path(title);
        match self.find(&path) {
            Some(_) => Err(ServiceError::FileError(FileFault::AlreadyExists)),
            None => {
                let ghost p = path@;
                let ghost content = bytes@;
                self.blobs.push(Blob { path, bytes });
                self.files = Ghost(self.files@.insert(p, content));
                proof {
                    let n = self.blobs@.len() - 1;
                    assert(self.blobs@[n].path@ == p);
                    assert forall|q: Seq<char>|
                        #[trigger] self.files@.contains_key(q) implies exists|i: int|
                            0 <= i < self.blobs@.len() && #[trigger] self.blobs@[i].path@
                                == q by {
                        if q != p {
                            let i = choose|i: int|
                                0 <= i < old(self).blobs@.len() && old(self).blobs@[i].path@
                                    == q;
                            assert(self.blobs@[i].path@ == q);
                        }
                    }
                }
                Ok(())
            },
        }
    }

    /// The content stored at `path`; `NotFound` when nothing stands there.
    pub fn read(&self, path: &str) -> (r: Result<Vec<u8>, ServiceError>)
        requires
            self.wf(),
        ensures
            match r {
                Ok(b) => self@.files.contains_key(path@) && b@ == self@.files[path@],
                Err(e) => !self@.files.contains_key(path@) && e is NotFound,
            },
    {
        let p = String::from_str(path);
        match self.find(&p) {
            Some(i) => Ok(self.blobs[i].bytes.clone()),
            None => Err(ServiceError::NotFound),
        }
    }
}

} // verus!
