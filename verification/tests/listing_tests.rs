use s3ls::listing::buckets_table;
use s3ls::listing::objects_table;
use s3ls::rows::bucket_rows;
use s3ls::rows::object_rows;
use s3ls::rows::ListingRow;
use s3ls::rows::RowKind;
use s3ls::table::render_table;

#[test]
fn two_buckets_two_rows_in_order() {
    let names = vec!["alpha".to_string(), "beta".to_string()];
    let rows = bucket_rows(&names);
    assert_eq!(rows.len(), 2);
    assert!(rows[0].kind == RowKind::Bucket);
    assert!(rows[1].kind == RowKind::Bucket);
    assert_eq!(rows[0].name, "alpha");
    assert_eq!(rows[1].name, "beta");
    assert_eq!(rows[0].bucket, None);
    let out = buckets_table(&names);
    assert_eq!(out, "Type    Name\n------  -----\nBucket  alpha\nBucket  beta\n");
}

#[test]
fn empty_bucket_list_renders_header_only() {
    let out = buckets_table(&Vec::new());
    assert_eq!(out, "Type  Name\n----  ----\n");
}

#[test]
fn folder_marker_key_is_suppressed() {
    let bucket = "mybucket".to_string();
    let prefix = "logs/".to_string();
    let folders = vec!["logs/".to_string()];
    let keys = vec!["logs/".to_string(), "logs/a.txt".to_string()];
    let rows = object_rows(&bucket, &prefix, &folders, &keys);
    assert_eq!(rows.len(), 2);
    assert!(rows[0].kind == RowKind::Folder);
    assert_eq!(rows[0].bucket, Some("mybucket".to_string()));
    assert_eq!(rows[0].name, "logs/");
    assert!(rows[1].kind == RowKind::File);
    assert_eq!(rows[1].bucket, Some("mybucket".to_string()));
    assert_eq!(rows[1].name, "logs/a.txt");
    let out = objects_table(&bucket, &prefix, &folders, &keys);
    assert_eq!(
        out,
        "Type    Bucket    Key\n------  --------  ----------\nFolder  mybucket  logs/\nFile    mybucket  logs/a.txt\n"
    );
}

#[test]
fn folders_come_before_files() {
    let bucket = "b".to_string();
    let prefix = "".to_string();
    let folders = vec!["docs/".to_string(), "img/".to_string()];
    let keys = vec!["readme".to_string()];
    let rows = object_rows(&bucket, &prefix, &folders, &keys);
    assert_eq!(rows.len(), 3);
    assert!(rows[0].kind == RowKind::Folder);
    assert_eq!(rows[0].name, "docs/");
    assert!(rows[1].kind == RowKind::Folder);
    assert_eq!(rows[1].name, "img/");
    assert!(rows[2].kind == RowKind::File);
    assert_eq!(rows[2].name, "readme");
}

#[test]
fn keys_differing_from_prefix_all_kept() {
    let bucket = "b".to_string();
    let prefix = "p/".to_string();
    let folders = Vec::new();
    let keys = vec!["p/x".to_string(), "p/".to_string(), "p/y".to_string()];
    let rows = object_rows(&bucket, &prefix, &folders, &keys);
    assert_eq!(rows.len(), 2);
    assert_eq!(rows[0].name, "p/x");
    assert_eq!(rows[1].name, "p/y");
}

#[test]
fn empty_object_listing_renders_header_only() {
    let out = objects_table(&"b".to_string(), &"".to_string(), &Vec::new(), &Vec::new());
    assert_eq!(out, "Type  Bucket  Key\n----  ------  ---\n");
}

#[test]
fn kind_labels() {
    assert_eq!(RowKind::Bucket.label(), "Bucket");
    assert_eq!(RowKind::Folder.label(), "Folder");
    assert_eq!(RowKind::File.label(), "File");
}

#[test]
fn row_cells_with_and_without_bucket_column() {
    let r = ListingRow {
        kind: RowKind::Bucket,
        bucket: None,
        name: "alpha".to_string(),
    };
    assert_eq!(r.cells(), vec!["Bucket".to_string(), "alpha".to_string()]);
    let r = ListingRow {
        kind: RowKind::File,
        bucket: Some("b".to_string()),
        name: "k".to_string(),
    };
    assert_eq!(r.cells(), vec!["File".to_string(), "b".to_string(), "k".to_string()]);
}

#[test]
fn render_single_column_unpadded() {
    let header = vec!["H".to_string()];
    let rows = vec![vec!["xx".to_string()], vec!["y".to_string()]];
    let out = render_table(&header, &rows);
    assert_eq!(out, "H\n--\nxx\ny\n");
}

#[test]
fn render_widths_fit_widest_cell_per_column() {
    let header = vec!["A".to_string(), "B".to_string()];
    let rows = vec![
        vec!["aaa".to_string(), "b".to_string()],
        vec!["c".to_string(), "dddd".to_string()],
    ];
    let out = render_table(&header, &rows);
    assert_eq!(out, "A    B\n---  ----\naaa  b\nc    dddd\n");
}
