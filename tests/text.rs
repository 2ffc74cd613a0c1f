use blog_backend::content::join_path;
use blog_backend::models::post::{parse_tags_field, upload_field, RowTags, Tags, UploadField};
use blog_backend::repositories::post::{index_text, keyword_filter, keyword_query};
use blog_backend::text::{escape_quote_marks, join_with, lex_less, split_at_char, trim};

fn strings(v: &[&str]) -> Vec<String> {
    v.iter().map(|s| s.to_string()).collect()
}

#[test]
fn split_keeps_empty_pieces() {
    assert_eq!(split_at_char("a,b,,c", ','), strings(&["a", "b", "", "c"]));
    assert_eq!(split_at_char("", ','), strings(&[""]));
    assert_eq!(split_at_char(",", ','), strings(&["", ""]));
    assert_eq!(split_at_char("标签,二", ','), strings(&["标签", "二"]));
}

#[test]
fn trim_removes_unicode_space_at_both_ends() {
    assert_eq!(trim("  hello world \t\n"), "hello world");
    assert_eq!(trim("\u{3000}标题\u{a0}"), "标题");
    assert_eq!(trim("   "), "");
    assert_eq!(trim("x"), "x");
}

#[test]
fn join_puts_separator_between_neighbours() {
    assert_eq!(join_with(&strings(&["a", "b", "c"]), "&"), "a&b&c");
    assert_eq!(join_with(&strings(&["a"]), " & "), "a");
    assert_eq!(join_with(&Vec::new(), "&"), "");
}

#[test]
fn quotes_are_doubled() {
    assert_eq!(escape_quote_marks("it's"), "it''s");
    assert_eq!(escape_quote_marks("''"), "''''");
    assert_eq!(escape_quote_marks("plain"), "plain");
}

#[test]
fn keyword_query_quotes_and_conjoins() {
    assert_eq!(keyword_query(&strings(&["rust", "it's"])), "'rust' & 'it''s'");
    assert_eq!(keyword_query(&strings(&["one"])), "'one'");
    assert_eq!(keyword_query(&Vec::new()), "");
}

#[test]
fn index_text_joins_tokens_with_ampersand() {
    assert_eq!(index_text(&strings(&["hello", " ", "world"])), "hello& &world");
    assert_eq!(index_text(&Vec::new()), "");
}

#[test]
fn lexicographic_order() {
    assert!(lex_less("a", "b"));
    assert!(lex_less("a", "ab"));
    assert!(lex_less("", "a"));
    assert!(!lex_less("b", "a"));
    assert!(!lex_less("a", "a"));
    assert!(lex_less("Z", "a"));
}

#[test]
fn tag_field_is_split_trimmed_and_deduplicated() {
    assert_eq!(parse_tags_field(" a, b ,b,, c"), strings(&["a", "b", "", "c"]));
    assert_eq!(parse_tags_field("x,y,x"), strings(&["x", "y", "x"]));
    assert_eq!(parse_tags_field(""), strings(&[""]));
}

#[test]
fn row_tags_split_without_trimming() {
    let t = Tags::from_row(RowTags { tags: "a, b".to_string() });
    assert_eq!(t.tags, strings(&["a", " b"]));
}

#[test]
fn upload_fields_are_recognised() {
    assert_eq!(upload_field("title"), Some(UploadField::Title));
    assert_eq!(upload_field("tags"), Some(UploadField::Tags));
    assert_eq!(upload_field("content"), Some(UploadField::Content));
    assert_eq!(upload_field("author"), None);
    assert_eq!(upload_field("Title"), None);
}

#[test]
fn file_paths_follow_path_join() {
    assert_eq!(join_path("posts", "hello"), "posts/hello");
    assert_eq!(join_path("posts/", "hello"), "posts/hello");
    assert_eq!(join_path("", "hello"), "hello");
    assert_eq!(join_path("posts", "/etc/passwd"), "/etc/passwd");
    assert_eq!(join_path("posts", "../x"), "posts/../x");
}

#[test]
fn keyword_filter_skips_empty_lists() {
    assert_eq!(keyword_filter(&Vec::new()), None);
    assert_eq!(keyword_filter(&strings(&["a", "b"])), Some("'a' & 'b'".to_string()));
}
