//! The two listing operations, from response values to the rendered table.
//!
//! The bucket listing turns bucket names into a `Type`/`Name` table; the
//! object listing turns common prefixes and object keys into a
//! `Type`/`Bucket`/`Key` table, folders first. Both render exactly the rows
//! described in `rows` with the renderer of `table`. The query builder says
//! what the single object-listing request holds: a `/` delimiter always, and
//! a prefix filter only when the requested prefix is non-empty.

use vstd::prelude::*;
use crate::path::ListingRequest;
use crate::rows::RowKind;
use crate::rows::bucket_rows;
use crate::rows::kept_files;
use crate::rows::kind_label;
use crate::rows::object_rows;
use crate::rows::row_cells;
use crate::table::render_table;
use crate::table::rendered_table;

verus! {

/// The single object-listing request the tool issues: the bucket, the `/`
/// delimiter, and the prefix filter, absent when the requested prefix is
/// empty.
pub struct ObjectQuery {
    pub bucket: String,
    pub delimiter: String,
    pub prefix: Option<String>,
}

/// Builds the object-listing request for a resolved path: the delimiter is
/// always "/", and an empty prefix is sent as no filter at all while a
/// non-empty one is passed on verbatim.
pub fn build_query(req: &ListingRequest) -> (q: ObjectQuery)
    ensures
        q.bucket@ == req.bucket@,
        q.delimiter@ == seq!['/'],
        req.prefix@.len() == 0 ==> q.prefix is None,
        req.prefix@.len() > 0 ==> (q.prefix matches Some(p) && p@ == req.prefix@),
{
    proof {
        reveal_strlit("/");
        assert("/"@ =~= seq!['/']);
    }
    let delimiter: String = "/".to_owned();
    let prefix: Option<String> = if req.prefix.as_str().is_empty() {
        None
    } else {
        Some(req.prefix.clone())
    };
    ObjectQuery { bucket: req.bucket.clone(), delimiter, prefix }
}

/// Header of the bucket table.
pub open spec fn bucket_header() -> Seq<Seq<char>> {
    seq!["Type"@, "Name"@]
}

/// Header of the object table.
pub open spec fn object_header() -> Seq<Seq<char>> {
    seq!["Type"@, "Bucket"@, "Key"@]
}

/// The cell grid of the bucket table: one row per bucket name, in order.
pub open spec fn bucket_grid(names: Seq<Seq<char>>) -> Seq<Seq<Seq<char>>> {
    names.map_values(|n: Seq<char>| seq![kind_label(RowKind::Bucket), n])
}

/// The cell grid of the object table: one row per common prefix, then one
/// per kept object key, in order.
pub open spec fn object_grid(
    bucket: Seq<char>,
    prefix: Seq<char>,
    folders: Seq<Seq<char>>,
    keys: Seq<Seq<char>>,
) -> Seq<Seq<Seq<char>>> {
    folders.map_values(|f: Seq<char>| seq![kind_label(RowKind::Folder), bucket, f]) + kept_files(
        keys,
        prefix,
    ).map_values(|k: Seq<char>| seq![kind_label(RowKind::File), bucket, k])
}

/// The rendered bucket listing: a `Type`/`Name` table with one bucket row
/// per name, in the given order.
#[verifier::loop_isolation(false)]
pub fn buckets_table(names: &Vec<String>) -> (out: String)
    ensures
        out@ == rendered_table(bucket_header(), bucket_grid(names.deep_view())),
{
    let lrows = bucket_rows(names);
    let mut grid: Vec<Vec<String>> = Vec::new();
    let mut i: usize = 0;
    while i < lrows.len()
        invariant
            i <= lrows@.len(),
            grid@.len() == i,
            forall|j: int| 0 <= j < i ==> (#[trigger] grid@[j]).deep_view() == row_cells(
                lrows@[j],
            ),
        decreases lrows@.len() - i,
    {
        grid.push(lrows[i].cells());
        i = i + 1;
    }
    let mut header: Vec<String> = Vec::new();
    header.push("Type".to_owned());
    header.push("Name".to_owned());
    proof {
        assert(header.deep_view() =~= bucket_header());
        assert(grid.deep_view() =~~= bucket_grid(names.deep_view()));
        assert forall|r: int| 0 <= r < grid@.len() implies (#[trigger] grid@[r])@.len()
            == header@.len() by {
            assert(grid@[r]@.len() == grid@[r].deep_view().len());
        }
    }
    render_table(&header, &grid)
}

/// The rendered object listing: a `Type`/`Bucket`/`Key` table with one
/// folder row per common prefix followed by one file row per object key,
/// a key equal to the requested prefix suppressed.
#[verifier::loop_isolation(false)]
pub fn objects_table(
    bucket: &String,
    prefix: &String,
    folders: &Vec<String>,
    keys: &Vec<String>,
) -> (out: String)
    ensures
        out@ == rendered_table(
            object_header(),
            object_grid(bucket@, prefix@, folders.deep_view(), keys.deep_view()),
        ),
{
    let lrows = object_rows(bucket, prefix, folders, keys);
    let mut grid: Vec<Vec<String>> = Vec::new();
    let mut i: usize = 0;
    while i < lrows.len()
        invariant
            i <= lrows@.len(),
            grid@.len() == i,
            forall|j: int| 0 <= j < i ==> (#[trigger] grid@[j]).deep_view() == row_cells(
                lrows@[j],
            ),
        decreases lrows@.len() - i,
    {
        grid.push(lrows[i].cells());
        i = i + 1;
    }
    let mut header: Vec<String> = Vec::new();
    header.push("Type".to_owned());
    header.push("Bucket".to_owned());
    header.push("Key".to_owned());
    proof {
        assert(header.deep_view() =~= object_header());
        assert(grid.deep_view() =~~= object_grid(
            bucket@,
            prefix@,
            folders.deep_view(),
            keys.deep_view(),
        ));
        assert forall|r: int| 0 <= r < grid@.len() implies (#[trigger] grid@[r])@.len()
            == header@.len() by {
            assert(grid@[r]@.len() == grid@[r].deep_view().len());
        }
    }
    render_table(&header, &grid)
}

} // verus!
