//! Object-store locations.  Payload bytes never pass through this crate:
//! the object store is reached through presigned URLs minted outside.  What
//! is decided here is the key under which an object lives and the location
//! record carried in the metadata.

use vstd::prelude::*;
use vstd::string::StringExecFns;

use crate::common::{IndexLocation, Location, LocationType};

verus! {

/// Key of an object created inside a revision:
/// `{dataset_id}/{object_id}/{filename}`.
pub open spec fn revision_object_key(
    dataset_id: Seq<char>,
    object_id: Seq<char>,
    filename: Seq<char>,
) -> Seq<char> {
    dataset_id + seq!['/'] + object_id + seq!['/'] + filename
}

/// Key of an object addressed directly under a project:
/// `{project_id}/{dataset_id}/{object_id}/{filename}`.
pub open spec fn storage_object_key(
    project_id: Seq<char>,
    dataset_id: Seq<char>,
    object_id: Seq<char>,
    filename: Seq<char>,
) -> Seq<char> {
    project_id + seq!['/'] + dataset_id + seq!['/'] + object_id + seq!['/'] + filename
}

/// Joins three path segments with `/`.
pub fn join_key3(a: &str, b: &str, c: &str) -> (r: String)
    ensures
        r@ == a@ + seq!['/'] + b@ + seq!['/'] + c@,
{
    let mut s = String::new();
    s.append(a);
    s.append("/");
    s.append(b);
    s.append("/");
    s.append(c);
    proof {
        reveal_strlit("/");
        assert(s@ =~= a@ + seq!['/'] + b@ + seq!['/'] + c@);
    }
    s
}

/// Joins four path segments with `/`.
pub fn join_key4(a: &str, b: &str, c: &str, d: &str) -> (r: String)
    ensures
        r@ == a@ + seq!['/'] + b@ + seq!['/'] + c@ + seq!['/'] + d@,
{
    let mut s = String::new();
    s.append(a);
    s.append("/");
    s.append(b);
    s.append("/");
    s.append(c);
    s.append("/");
    s.append(d);
    proof {
        reveal_strlit("/");
        assert(s@ =~= a@ + seq!['/'] + b@ + seq!['/'] + c@ + seq!['/'] + d@);
    }
    s
}

/// Location of an object created inside a revision, under `bucket`, with
/// the key convention of [`revision_object_key`].
pub fn make_revision_object_location(
    bucket: &str,
    dataset_id: &str,
    object_id: &str,
    filename: &str,
) -> (r: Location)
    ensures
        r@.bucket == bucket@,
        r@.key == revision_object_key(dataset_id@, object_id@, filename@),
        r@.url == Seq::<char>::empty(),
        r@.location_type == LocationType::Object,
        r@.index_location == (IndexLocation { start_byte: 0, end_byte: 0 }),
{
    Location {
        bucket: bucket.to_owned(),
        key: join_key3(dataset_id, object_id, filename),
        url: String::new(),
        location_type: LocationType::Object,
        index_location: IndexLocation { start_byte: 0, end_byte: 0 },
    }
}

/// Location of an object addressed directly under a project, under
/// `bucket`, with the key convention of [`storage_object_key`]; `endpoint`
/// is recorded as the location's URL.
pub fn make_storage_location(
    bucket: &str,
    endpoint: &str,
    project_id: &str,
    dataset_id: &str,
    object_id: &str,
    filename: &str,
) -> (r: Location)
    ensures
        r@.bucket == bucket@,
        r@.key == storage_object_key(project_id@, dataset_id@, object_id@, filename@),
        r@.url == endpoint@,
        r@.location_type == LocationType::Object,
        r@.index_location == (IndexLocation { start_byte: 0, end_byte: 0 }),
{
    Location {
        bucket: bucket.to_owned(),
        key: join_key4(project_id, dataset_id, object_id, filename),
        url: endpoint.to_owned(),
        location_type: LocationType::Object,
        index_location: IndexLocation { start_byte: 0, end_byte: 0 },
    }
}

/// A part of a finished multipart upload: the ETag the store returned for
/// the part and its one-based part number, in caller order.
#[derive(Debug)]
pub struct CompletedPart {
    pub etag: String,
    pub part: i64,
}

/// Mathematical value of a [`CompletedPart`].
pub struct CompletedPartView {
    pub etag: Seq<char>,
    pub part: i64,
}

impl View for CompletedPart {
    type V = CompletedPartView;

    open spec fn view(&self) -> CompletedPartView {
        CompletedPartView { etag: self.etag@, part: self.part }
    }
}

impl DeepView for CompletedPart {
    type V = CompletedPartView;

    open spec fn deep_view(&self) -> CompletedPartView {
        self.view()
    }
}

impl Clone for CompletedPart {
    fn clone(&self) -> (r: Self)
        ensures
            r@ == self@,
    {
        CompletedPart { etag: self.etag.clone(), part: self.part }
    }
}

} // verus!
