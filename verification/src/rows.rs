//! The rows of a listing table.
//!
//! A listing response becomes a sequence of typed rows: one per bucket for
//! the bucket listing, and folder rows followed by file rows for the object
//! listing. A file row whose key equals the requested prefix itself is a
//! folder marker and is suppressed.

use vstd::prelude::*;

verus! {

/// What a listing row describes: a bucket, a "folder" (common prefix), or a
/// file (object key).
#[derive(Clone, Copy, Debug, PartialEq, Eq, Structural)]
pub enum RowKind {
    Bucket,
    Folder,
    File,
}

/// The text tag a row's kind is rendered with.
pub open spec fn kind_label(k: RowKind) -> Seq<char> {
    match k {
        RowKind::Bucket => "Bucket"@,
        RowKind::Folder => "Folder"@,
        RowKind::File => "File"@,
    }
}

impl RowKind {
    /// The rendered tag for this kind.
    pub fn label(&self) -> (s: String)
        ensures
            s@ == kind_label(*self),
    {
        match self {
            RowKind::Bucket => "Bucket".to_owned(),
            RowKind::Folder => "Folder".to_owned(),
            RowKind::File => "File".to_owned(),
        }
    }
}

/// One table row: its kind, the bucket column where the table has one, and
/// the bucket or key name shown.
pub struct ListingRow {
    pub kind: RowKind,
    pub bucket: Option<String>,
    pub name: String,
}

/// The cells of one rendered row, left to right: the kind tag, the bucket
/// column when present, and the name.
pub open spec fn row_cells(r: ListingRow) -> Seq<Seq<char>> {
    match r.bucket {
        None => seq![kind_label(r.kind), r.name@],
        Some(b) => seq![kind_label(r.kind), b@, r.name@],
    }
}

impl ListingRow {
    /// The cells of this row, left to right.
    pub fn cells(&self) -> (v: Vec<String>)
        ensures
            v.deep_view() == row_cells(*self),
    {
        let mut v: Vec<String> = Vec::new();
        v.push(self.kind.label());
        match &self.bucket {
            Some(b) => {
                v.push(b.clone());
            },
            None => {},
        }
        v.push(self.name.clone());
        proof {
            assert(v.deep_view() =~= row_cells(*self));
        }
        v
    }
}

/// One row per bucket name, in the given order, each tagged as a bucket and
/// without a bucket column.
#[verifier::loop_isolation(false)]
pub fn bucket_rows(names: &Vec<String>) -> (rows: Vec<ListingRow>)
    ensures
        rows@.len() == names@.len(),
        forall|j: int| 0 <= j < names@.len() ==> {
            &&& (#[trigger] rows@[j]).kind == RowKind::Bucket
            &&& rows@[j].bucket is None
            &&& rows@[j].name@ == names@[j]@
        },
{
    let mut rows: Vec<ListingRow> = Vec::new();
    let mut i: usize = 0;
    while i < names.len()
        invariant
            i <= names@.len(),
            rows@.len() == i,
            forall|j: int| 0 <= j < i ==> {
                &&& (#[trigger] rows@[j]).kind == RowKind::Bucket
                &&& rows@[j].bucket is None
                &&& rows@[j].name@ == names@[j]@
            },
        decreases names@.len() - i,
    {
        rows.push(ListingRow { kind: RowKind::Bucket, bucket: None, name: names[i].clone() });
        i = i + 1;
    }
    rows
}

/// The object keys kept as file rows: every key except one exactly equal to
/// the requested prefix, in the given order.
pub open spec fn kept_files(keys: Seq<Seq<char>>, prefix: Seq<char>) -> Seq<Seq<char>>
    decreases keys.len(),
{
    if keys.len() == 0 {
        Seq::<Seq<char>>::empty()
    } else {
        let rest = kept_files(keys.drop_last(), prefix);
        if keys.last() == prefix {
            rest
        } else {
            rest.push(keys.last())
        }
    }
}

/// Folder rows for every common prefix, then file rows for every key other
/// than the requested prefix itself, both groups in service order.
#[verifier::loop_isolation(false)]
pub fn object_rows(
    bucket: &String,
    prefix: &String,
    folders: &Vec<String>,
    keys: &Vec<String>,
) -> (rows: Vec<ListingRow>)
    ensures
        rows@.len() == folders@.len() + kept_files(keys.deep_view(), prefix@).len(),
        forall|j: int| 0 <= j < folders@.len() ==> {
            &&& (#[trigger] rows@[j]).kind == RowKind::Folder
            &&& rows@[j].bucket matches Some(b) && b@ == bucket@
            &&& rows@[j].name@ == folders@[j]@
        },
        forall|j: int| folders@.len() <= j < rows@.len() ==> {
            &&& (#[trigger] rows@[j]).kind == RowKind::File
            &&& rows@[j].bucket matches Some(b) && b@ == bucket@
            &&& rows@[j].name@ == kept_files(keys.deep_view(), prefix@)[j - folders@.len()]
        },
{
    let ghost kv = keys.deep_view();
    let mut rows: Vec<ListingRow> = Vec::new();
    let mut i: usize = 0;
    while i < folders.len()
        invariant
            i <= folders@.len(),
            rows@.len() == i,
            forall|j: int| 0 <= j < i ==> {
                &&& (#[trigger] rows@[j]).kind == RowKind::Folder
                &&& rows@[j].bucket matches Some(b) && b@ == bucket@
                &&& rows@[j].name@ == folders@[j]@
            },
        decreases folders@.len() - i,
    {
        rows.push(
            ListingRow {
                kind: RowKind::Folder,
                bucket: Some(bucket.clone()),
                name: folders[i].clone(),
            },
        );
        i = i + 1;
    }
    let mut k: usize = 0;
    while k < keys.len()
        invariant
            k <= keys@.len(),
            rows@.len() == folders@.len() + kept_files(kv.subrange(0, k as int), prefix@).len(),
            forall|j: int| 0 <= j < folders@.len() ==> {
                &&& (#[trigger] rows@[j]).kind == RowKind::Folder
                &&& rows@[j].bucket matches Some(b) && b@ == bucket@
                &&& rows@[j].name@ == folders@[j]@
            },
            forall|j: int| folders@.len() <= j < rows@.len() ==> {
                &&& (#[trigger] rows@[j]).kind == RowKind::File
                &&& rows@[j].bucket matches Some(b) && b@ == bucket@
                &&& rows@[j].name@ == kept_files(kv.subrange(0, k as int), prefix@)[j
                    - folders@.len()]
            },
        decreases keys@.len() - k,
    {
        proof {
            assert(kv.subrange(0, k as int + 1).drop_last() =~= kv.subrange(0, k as int));
            assert(kv.subrange(0, k as int + 1).last() == kv[k as int]);
        }
        if !(keys[k] == *prefix) {
            rows.push(
                ListingRow {
                    kind: RowKind::File,
                    bucket: Some(bucket.clone()),
                    name: keys[k].clone(),
                },
            );
        }
        k = k + 1;
    }
    proof {
        assert(kv.subrange(0, kv.len() as int) =~= kv);
    }
    rows
}

} // verus!
