use s3ls::listing::build_query;
use s3ls::path::split_path;

#[test]
fn no_slash_whole_input_is_bucket() {
    let r = split_path("abc");
    assert_eq!(r.bucket, "abc");
    assert_eq!(r.prefix, "");
}

#[test]
fn splits_at_first_slash_only() {
    let r = split_path("a/b/c");
    assert_eq!(r.bucket, "a");
    assert_eq!(r.prefix, "b/c");
}

#[test]
fn leading_slash_gives_empty_bucket() {
    let r = split_path("/x");
    assert_eq!(r.bucket, "");
    assert_eq!(r.prefix, "x");
}

#[test]
fn trailing_slash_gives_empty_prefix() {
    let r = split_path("a/");
    assert_eq!(r.bucket, "a");
    assert_eq!(r.prefix, "");
}

#[test]
fn empty_input_gives_empty_parts() {
    let r = split_path("");
    assert_eq!(r.bucket, "");
    assert_eq!(r.prefix, "");
}

#[test]
fn double_slash_stays_in_prefix() {
    let r = split_path("a//b");
    assert_eq!(r.bucket, "a");
    assert_eq!(r.prefix, "/b");
}

#[test]
fn empty_prefix_sends_no_filter() {
    let q = build_query(&split_path("mybucket"));
    assert_eq!(q.bucket, "mybucket");
    assert_eq!(q.delimiter, "/");
    assert_eq!(q.prefix, None);
}

#[test]
fn nonempty_prefix_sent_verbatim() {
    let q = build_query(&split_path("mybucket/logs/"));
    assert_eq!(q.bucket, "mybucket");
    assert_eq!(q.delimiter, "/");
    assert_eq!(q.prefix, Some("logs/".to_string()));
}
