use blog_backend::models::post::{PostCreate, PostMetaRead};
use blog_backend::models::{default_page_size, Pagenigation};
use blog_backend::repositories::post::{MemoryPostStore, PostMetaCreate, PostMetaUpdate};
use blog_backend::repositories::{DriverFault, ReponsitoryError};
use blog_backend::service::post::PostService;
use blog_backend::service::{FileFault, ServiceError};
use blog_backend::tokenizer::Tokenizer;

fn strings(v: &[&str]) -> Vec<String> {
    v.iter().map(|s| s.to_string()).collect()
}

fn new_post(title: &str, tags: &[&str], content: &[u8]) -> PostCreate {
    PostCreate { title: title.to_string(), tags: strings(tags), content: content.to_vec() }
}

fn page(cursor: Option<i32>, size: i32) -> Pagenigation {
    Pagenigation { cursor, page_size: size }
}

#[test]
fn create_then_read_counts_one_view() {
    let mut s = PostService::new("posts");
    let m = s.add_one(new_post("hello world", &["a", "b"], b"hi"), 100).unwrap();
    assert_eq!(m.title, "hello world");
    assert_eq!(m.tags, strings(&["a", "b"]));
    assert_eq!(m.count, 0);
    assert_eq!(m.first_publish, 100);
    assert_eq!(m.last_modify, 100);
    let r = s.read_one(m.id).unwrap();
    assert_eq!(r.id, m.id);
    assert_eq!(r.count, 1);
    assert_eq!(s.read_one(m.id).unwrap().count, 2);
}

#[test]
fn read_after_add_keeps_title_and_tag_order() {
    let mut s = PostService::new("posts");
    let m = s.add_one(new_post("第二篇 文章", &["z", "a", "z"], b"x"), 5).unwrap();
    let r = s.read_one(m.id).unwrap();
    assert_eq!(r.title, "第二篇 文章");
    assert_eq!(r.tags, strings(&["z", "a", "z"]));
}

#[test]
fn tag_search_after_create() {
    let mut s = PostService::new("posts");
    let m = s.add_one(new_post("hello world", &["a", "b"], b"hi"), 1).unwrap();
    let hits = s.find_by_tags(&strings(&["a"]));
    assert!(hits.iter().any(|p| p.id == m.id));
    assert!(s.find_by_tags(&strings(&["z"])).is_empty());
    assert_eq!(s.find_by_tags(&strings(&["b", "a"])).len(), 1);
    assert!(s.find_by_tags(&strings(&["a", "z"])).is_empty());
}

#[test]
fn listing_an_empty_store_is_empty() {
    let mut s = PostService::new("posts");
    let v = s.list(Pagenigation::from_query(None, None)).unwrap();
    assert!(v.is_empty());
    assert_eq!(default_page_size(), 8);
    assert_eq!(Pagenigation::from_query(Some(3), None).page_size, 8);
    assert_eq!(Pagenigation::from_query(None, Some(2)).page_size, 2);
}

#[test]
fn missing_ids_are_not_found() {
    let mut s = PostService::new("posts");
    s.add_one(new_post("one", &[], b"1"), 1).unwrap();
    assert!(matches!(s.read_one(42), Err(ServiceError::NotFound)));
    assert!(matches!(s.delete_one(42), Err(ServiceError::NotFound)));
    assert!(matches!(
        s.update_one(42, "t".to_string(), Vec::new(), 2),
        Err(ServiceError::NotFound)
    ));
    assert!(matches!(s.read_one(0), Err(ServiceError::NotFound)));
    let mut store = MemoryPostStore::new();
    let upd = PostMetaUpdate { id: 1, title: "t".to_string(), tags: Vec::new(), kw: Vec::new() };
    assert!(matches!(store.update(upd, 0), Err(ReponsitoryError::NotFound)));
    assert!(matches!(store.find_by_id(1), Err(ReponsitoryError::NotFound)));
    assert!(matches!(store.delete(1), Err(ReponsitoryError::NotFound)));
}

#[test]
fn empty_filters_find_nothing() {
    let mut s = PostService::new("posts");
    s.add_one(new_post("hello world", &["a"], b"hi"), 1).unwrap();
    assert!(s.find_by_keywords(&Vec::new()).is_empty());
    assert!(s.find_by_tags(&Vec::new()).is_empty());
}

#[test]
fn keyword_search_needs_every_keyword() {
    let mut store = MemoryPostStore::new();
    let a = PostMetaCreate { title: "a".to_string(), tags: Vec::new(), kw: strings(&["rust", "verus"]) };
    let b = PostMetaCreate { title: "b".to_string(), tags: Vec::new(), kw: strings(&["rust"]) };
    store.add(a, 0).unwrap();
    store.add(b, 0).unwrap();
    let hits = store.find_by_keywords(&strings(&["rust"]));
    assert_eq!(hits.iter().map(|m| m.id).collect::<Vec<_>>(), vec![1, 2]);
    let hits = store.find_by_keywords(&strings(&["rust", "verus"]));
    assert_eq!(hits.iter().map(|m| m.id).collect::<Vec<_>>(), vec![1]);
    assert!(store.find_by_keywords(&strings(&["go"])).is_empty());
}

#[test]
fn keyword_search_through_the_tokenizer() {
    let mut s = PostService::new("posts");
    let m = s.add_one(new_post("南京市长江大桥", &[], b"x"), 1).unwrap();
    let hits = s.find_by_keywords(&strings(&["长江", "大桥"]));
    assert_eq!(hits.len(), 1);
    assert_eq!(hits[0].id, m.id);
    assert!(s.find_by_keywords(&strings(&["南京市长江大桥x"])).is_empty());
}

#[test]
fn pages_follow_the_cursor() {
    let mut s = PostService::new("posts");
    for i in 0..5 {
        s.add_one(new_post(&format!("post {}", i), &[], b"x"), i).unwrap();
    }
    let first = s.list(page(None, 2)).unwrap();
    assert_eq!(first.iter().map(|m| m.id).collect::<Vec<_>>(), vec![1, 2]);
    assert!(first.iter().all(|m| m.count == 1));
    let next = s.list(page(Some(2), 2)).unwrap();
    assert_eq!(next.iter().map(|m| m.id).collect::<Vec<_>>(), vec![3, 4]);
    let last = s.list(page(Some(4), 8)).unwrap();
    assert_eq!(last.iter().map(|m| m.id).collect::<Vec<_>>(), vec![5]);
    assert!(s.list(page(Some(5), 8)).unwrap().is_empty());
    assert!(s.list(page(None, 0)).unwrap().is_empty());
    assert_eq!(s.read_one(1).unwrap().count, 2);
    assert_eq!(s.read_one(5).unwrap().count, 2);
}

#[test]
fn pages_skip_deleted_ids() {
    let mut s = PostService::new("posts");
    for i in 0..4 {
        s.add_one(new_post(&format!("p{}", i), &[], b"x"), 0).unwrap();
    }
    let gone = s.delete_one(2).unwrap();
    assert_eq!(gone.id, 2);
    assert_eq!(gone.title, "p1");
    let v = s.list(page(Some(1), 2)).unwrap();
    assert_eq!(v.iter().map(|m| m.id).collect::<Vec<_>>(), vec![3, 4]);
    let m = s.add_one(new_post("p9", &[], b"x"), 0).unwrap();
    assert_eq!(m.id, 5);
}

#[test]
fn negative_page_size_is_an_internal_error() {
    let mut s = PostService::new("posts");
    match s.list(page(None, -1)) {
        Err(ServiceError::InternalError(m)) => {
            assert_eq!(m, "Database Error: LIMIT must not be negative")
        }
        _ => panic!("expected an internal error"),
    }
}

#[test]
fn file_path_is_the_same_each_time() {
    let s = PostService::new("posts");
    let a = s.build_file_path("hello world");
    let b = s.build_file_path("hello world");
    assert_eq!(a, b);
    assert_eq!(a, "posts/hello world");
}

#[test]
fn content_is_written_once() {
    let mut s = PostService::new("posts");
    let first = s.add_one(new_post("same", &[], b"first"), 1).unwrap();
    let second = s.add_one(new_post("same", &["t"], b"second"), 2);
    assert!(matches!(second, Err(ServiceError::FileError(FileFault::AlreadyExists))));
    let path = s.build_file_path(&first.title);
    assert_eq!(s.read_file(&path).unwrap(), b"first".to_vec());
    // the metadata row of the failed create stays behind
    let orphan = s.read_one(2).unwrap();
    assert_eq!(orphan.title, "same");
    assert_eq!(orphan.tags, strings(&["t"]));
}

#[test]
fn reading_missing_content_is_not_found() {
    let s = PostService::new("posts");
    assert!(matches!(s.read_file("posts/nothing"), Err(ServiceError::NotFound)));
}

#[test]
fn update_replaces_title_tags_and_counts_a_view() {
    let mut s = PostService::new("posts");
    let m = s.add_one(new_post("old title", &["a"], b"x"), 10).unwrap();
    let u = s.update_one(m.id, "new title".to_string(), strings(&["b", "c"]), 20).unwrap();
    assert_eq!(u.title, "new title");
    assert_eq!(u.tags, strings(&["b", "c"]));
    assert_eq!(u.first_publish, 10);
    assert_eq!(u.last_modify, 20);
    assert_eq!(u.count, 1);
    assert!(s.find_by_tags(&strings(&["a"])).is_empty());
    assert_eq!(s.find_by_tags(&strings(&["c"])).len(), 1);
    let path = s.build_file_path("old title");
    assert_eq!(s.read_file(&path).unwrap(), b"x".to_vec());
}

#[test]
fn all_tags_are_distinct_and_sorted() {
    let mut s = PostService::new("posts");
    s.add_one(new_post("p1", &["rust", "db"], b"x"), 0).unwrap();
    s.add_one(new_post("p2", &["db", "async", "rust"], b"x"), 0).unwrap();
    assert_eq!(s.list_all_tags(), strings(&["async", "db", "rust"]));
    assert!(PostService::new("posts").list_all_tags().is_empty());
}

#[test]
fn store_hands_out_ids_from_one() {
    let mut store = MemoryPostStore::new();
    let c = PostMetaCreate { title: "t".to_string(), tags: Vec::new(), kw: Vec::new() };
    let m = store.add(c, 0).unwrap();
    assert_eq!(m.id, 1);
    assert_eq!(store.len(), 1);
}

#[test]
fn new_post_limits() {
    assert!(new_post("ok", &["a"], b"x").validate().is_ok());
    let bad = |p: PostCreate| match p.validate() {
        Err(ServiceError::BadArugment(m)) => m,
        _ => panic!("expected a bad argument"),
    };
    assert_eq!(bad(new_post("", &[], b"")), "title must have 1 to 255 characters");
    assert_eq!(bad(new_post(&"x".repeat(256), &[], b"")), "title must have 1 to 255 characters");
    assert!(new_post(&"字".repeat(255), &[], b"").validate().is_ok());
    let eleven = ["t"; 11];
    assert_eq!(bad(new_post("t", &eleven, b"")), "at most 10 tags are allowed");
    assert!(new_post("t", &["t"; 10], b"").validate().is_ok());
    let big = PostCreate { title: "t".to_string(), tags: Vec::new(), content: vec![0u8; 10 * 1024 * 1024 + 1] };
    assert_eq!(bad(big), "content must not exceed 10 MiB");
    let edge = PostCreate { title: "t".to_string(), tags: Vec::new(), content: vec![0u8; 10 * 1024 * 1024] };
    assert!(edge.validate().is_ok());
}

#[test]
fn upload_form_fills_a_post() {
    let mut p = PostCreate::empty();
    p.set_title("  hello  ");
    p.set_tags("a, b,b");
    p.set_content(b"body".to_vec());
    assert_eq!(p.title, "hello");
    assert_eq!(p.tags, strings(&["a", "b"]));
    assert_eq!(p.content, b"body".to_vec());
}

#[test]
fn driver_faults_are_classified() {
    let e = ReponsitoryError::from_fault(DriverFault::RowNotFound);
    assert!(matches!(e, ReponsitoryError::NotFound));
    assert_eq!(e.message(), "Not Found");
    let e = ReponsitoryError::from_fault(DriverFault::PoolTimedOut);
    assert_eq!(e.message(), "Pool Error: Timed Out");
    let e = ReponsitoryError::from_fault(DriverFault::PoolClosed);
    assert_eq!(e.message(), "Pool Error: Closed");
    let e = ReponsitoryError::from_fault(DriverFault::Database("duplicate key".to_string()));
    assert_eq!(e.message(), "Database Error: duplicate key");
    let e = ReponsitoryError::from_fault(DriverFault::Tls("handshake".to_string()));
    assert_eq!(e.message(), "Database Error: handshake");
    let e = ReponsitoryError::from_fault(DriverFault::Io("reset".to_string()));
    assert_eq!(e.message(), "Database Error: reset");
    let e = ReponsitoryError::from_fault(DriverFault::Other);
    assert!(matches!(e, ReponsitoryError::InternalError));
    assert_eq!(e.message(), "Internal Error");
}

#[test]
fn service_errors_answer_with_status_and_text() {
    let nf = ServiceError::from_repository(ReponsitoryError::NotFound);
    assert!(matches!(nf, ServiceError::NotFound));
    assert_eq!(nf.status_code(), 404);
    assert_eq!(nf.answer(), "Not Found");
    let ie = ServiceError::from_repository(ReponsitoryError::PoolError("Closed".to_string()));
    assert_eq!(ie.status_code(), 500);
    assert_eq!(ie.answer(), "Pool Error: Closed");
    let ba = ServiceError::BadArugment("bad".to_string());
    assert_eq!(ba.status_code(), 400);
    assert_eq!(ba.answer(), "bad");
    let fe = ServiceError::FileError(FileFault::AlreadyExists);
    assert_eq!(fe.status_code(), 500);
    assert_eq!(fe.answer(), "entity already exists");
    let io = ServiceError::FileError(FileFault::Io("disk full".to_string()));
    assert_eq!(io.answer(), "disk full");
}

#[test]
fn tokenizer_cuts_in_search_mode() {
    let t = Tokenizer::new();
    assert_eq!(t.cut("南京市长江大桥"), strings(&["南京", "京市", "南京市", "长江", "大桥", "长江大桥"]));
    assert!(t.cut("").is_empty());
}

#[test]
fn meta_read_shows_the_row() {
    let mut s = PostService::new("posts");
    let m = s.add_one(new_post("shown", &["a"], b"x"), 7).unwrap();
    let r = PostMetaRead::from_meta(m);
    assert_eq!(r.id, 1);
    assert_eq!(r.title, "shown");
    assert_eq!(r.tags, strings(&["a"]));
    assert_eq!(r.count, 0);
    assert_eq!(r.first_publish, 7);
}

#[test]
fn batch_delete_keeps_successes_and_reports_the_last_error() {
    let mut s = PostService::new("posts");
    for i in 0..3 {
        s.add_one(new_post(&format!("b{}", i), &[], b"x"), 0).unwrap();
    }
    let (done, last) = s.delete_many(&vec![1, 9, 3, 1]);
    assert_eq!(done.iter().map(|m| m.id).collect::<Vec<_>>(), vec![1, 3]);
    assert!(matches!(last, Some(ServiceError::NotFound)));
    let (done, last) = s.delete_many(&vec![2]);
    assert_eq!(done.len(), 1);
    assert!(last.is_none());
    let (done, last) = s.delete_many(&Vec::new());
    assert!(done.is_empty() && last.is_none());
}
