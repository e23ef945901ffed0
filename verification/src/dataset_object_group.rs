//! Object groups, their revisions, and the objects embedded in revisions.
//!
//! An ObjectGroup is an append-only collection: each append creates an
//! ObjectGroupRevision numbered from the group's monotone
//! `revision_counter`.  Objects live embedded in their revision; their
//! payloads live in the object store under the revision key convention.

use vstd::prelude::*;

use crate::common::{Label, LabelView, Location, LocationView, Metadata, MetadataView, Origin,
    OriginView, Status, Version};
use crate::objectstorage::{make_revision_object_location, revision_object_key};

verus! {

/// An append-only collection of revisions inside a dataset.  `head_id`
/// names the most recently appended revision; deleting that revision
/// later leaves the field as a record of it.
#[derive(Debug)]
pub struct ObjectGroup {
    pub id: String,
    pub name: String,
    pub dataset_id: String,
    pub labels: Vec<Label>,
    pub metadata: Vec<Metadata>,
    pub status: Status,
    pub head_id: String,
    pub revision_counter: i64,
}

/// Mathematical value of an [`ObjectGroup`].
pub struct ObjectGroupView {
    pub id: Seq<char>,
    pub name: Seq<char>,
    pub dataset_id: Seq<char>,
    pub labels: Seq<LabelView>,
    pub metadata: Seq<MetadataView>,
    pub status: Status,
    pub head_id: Seq<char>,
    pub revision_counter: i64,
}

impl View for ObjectGroup {
    type V = ObjectGroupView;

    open spec fn view(&self) -> ObjectGroupView {
        ObjectGroupView {
            id: self.id@,
            name: self.name@,
            dataset_id: self.dataset_id@,
            labels: self.labels.deep_view(),
            metadata: self.metadata.deep_view(),
            status: self.status,
            head_id: self.head_id@,
            revision_counter: self.revision_counter,
        }
    }
}

impl DeepView for ObjectGroup {
    type V = ObjectGroupView;

    open spec fn deep_view(&self) -> ObjectGroupView {
        self.view()
    }
}

impl Clone for ObjectGroup {
    fn clone(&self) -> (r: Self)
        ensures
            r@ == self@,
    {
        let labels = self.labels.clone();
        let metadata = self.metadata.clone();
        proof {
            assert(labels.deep_view() =~= self.labels.deep_view());
            assert(metadata.deep_view() =~= self.metadata.deep_view());
        }
        ObjectGroup {
            id: self.id.clone(),
            name: self.name.clone(),
            dataset_id: self.dataset_id.clone(),
            labels,
            metadata,
            status: self.status,
            head_id: self.head_id.clone(),
            revision_counter: self.revision_counter,
        }
    }
}

impl ObjectGroup {
    /// Name of the collection object groups persist in.
    pub fn collection_name() -> (r: String)
        ensures
            r@ == "ObjectGroup"@,
    {
        "ObjectGroup".to_owned()
    }

    /// Object groups are read by their owning dataset.
    pub fn parent_field_name() -> (r: Option<String>)
        ensures
            r matches Some(f) && f@ == "dataset_id"@,
    {
        Some("dataset_id".to_owned())
    }

    /// A fresh group: no revisions yet, `Initializing` until its upload is
    /// finished.
    pub fn new(
        id: String,
        name: String,
        dataset_id: String,
        labels: Vec<Label>,
        metadata: Vec<Metadata>,
    ) -> (r: Self)
        ensures
            r@.id == id@,
            r@.name == name@,
            r@.dataset_id == dataset_id@,
            r@.labels == labels.deep_view(),
            r@.metadata == metadata.deep_view(),
            r@.status == Status::Initializing,
            r@.head_id == Seq::<char>::empty(),
            r@.revision_counter == 0,
    {
        ObjectGroup {
            id,
            name,
            dataset_id,
            labels,
            metadata,
            status: Status::Initializing,
            head_id: String::new(),
            revision_counter: 0,
        }
    }
}

/// A single binary payload, embedded in a revision; its bytes live in the
/// object store under `location`.
#[derive(Debug)]
pub struct DatasetObject {
    pub id: String,
    pub filename: String,
    pub filetype: String,
    pub origin: Origin,
    pub content_len: i64,
    pub location: Location,
    pub created: i64,
    pub metadata: Vec<Metadata>,
    pub upload_id: String,
}

/// Mathematical value of a [`DatasetObject`].
pub struct ObjectView {
    pub id: Seq<char>,
    pub filename: Seq<char>,
    pub filetype: Seq<char>,
    pub origin: OriginView,
    pub content_len: i64,
    pub location: LocationView,
    pub created: i64,
    pub metadata: Seq<MetadataView>,
    pub upload_id: Seq<char>,
}

impl View for DatasetObject {
    type V = ObjectView;

    open spec fn view(&self) -> ObjectView {
        ObjectView {
            id: self.id@,
            filename: self.filename@,
            filetype: self.filetype@,
            origin: self.origin@,
            content_len: self.content_len,
            location: self.location@,
            created: self.created,
            metadata: self.metadata.deep_view(),
            upload_id: self.upload_id@,
        }
    }
}

impl DeepView for DatasetObject {
    type V = ObjectView;

    open spec fn deep_view(&self) -> ObjectView {
        self.view()
    }
}

impl Clone for DatasetObject {
    fn clone(&self) -> (r: Self)
        ensures
            r@ == self@,
    {
        let metadata = self.metadata.clone();
        proof {
            assert(metadata.deep_view() =~= self.metadata.deep_view());
        }
        DatasetObject {
            id: self.id.clone(),
            filename: self.filename.clone(),
            filetype: self.filetype.clone(),
            origin: self.origin.clone(),
            content_len: self.content_len,
            location: self.location.clone(),
            created: self.created,
            metadata,
            upload_id: self.upload_id.clone(),
        }
    }
}

impl DatasetObject {
    /// Name of the collection objects are addressed by in queries.
    pub fn collection_name() -> (r: String)
        ensures
            r@ == "Object"@,
    {
        "Object".to_owned()
    }

    /// Objects are embedded; they are not read by a parent field.
    pub fn parent_field_name() -> (r: Option<String>)
        ensures
            r is None,
    {
        None
    }

    /// A fresh object inside a revision of `dataset_id`, not yet uploaded:
    /// its key follows [`revision_object_key`] and its `upload_id` is
    /// empty until a multipart upload starts.
    pub fn new(
        id: String,
        filename: String,
        filetype: String,
        content_len: i64,
        metadata: Vec<Metadata>,
        dataset_id: &str,
        bucket: &str,
        created: i64,
    ) -> (r: Self)
        ensures
            r@.id == id@,
            r@.filename == filename@,
            r@.filetype == filetype@,
            r@.content_len == content_len,
            r@.created == created,
            r@.metadata == metadata.deep_view(),
            r@.upload_id == Seq::<char>::empty(),
            r@.location.bucket == bucket@,
            r@.location.key == revision_object_key(dataset_id@, id@, filename@),
    {
        let location = make_revision_object_location(bucket, dataset_id, id.as_str(),
            filename.as_str());
        DatasetObject {
            id,
            filename,
            filetype,
            origin: Origin {
                link: String::new(),
                location: Location {
                    bucket: String::new(),
                    key: String::new(),
                    url: String::new(),
                    location_type: crate::common::LocationType::Object,
                    index_location: crate::common::IndexLocation { start_byte: 0, end_byte: 0 },
                },
                origin_type: crate::common::OriginType::ObjectStorage,
            },
            content_len,
            location,
            created,
            metadata,
            upload_id: String::new(),
        }
    }
}

/// An immutable snapshot inside an object group: the revision number
/// assigned from the group's counter, the embedded objects, and the
/// reverse index of dataset versions that froze this revision.
#[derive(Debug)]
pub struct ObjectGroupRevision {
    pub id: String,
    pub dataset_id: String,
    pub object_group_id: String,
    pub date_create: i64,
    pub labels: Vec<Label>,
    pub metadata: Vec<Metadata>,
    pub objects_count: i64,
    pub objects: Vec<DatasetObject>,
    pub version: Version,
    pub revision: i64,
    pub dataset_versions: Vec<String>,
    pub status: Status,
}

/// Mathematical value of an [`ObjectGroupRevision`].
pub struct RevisionView {
    pub id: Seq<char>,
    pub dataset_id: Seq<char>,
    pub object_group_id: Seq<char>,
    pub date_create: i64,
    pub labels: Seq<LabelView>,
    pub metadata: Seq<MetadataView>,
    pub objects_count: i64,
    pub objects: Seq<ObjectView>,
    pub version: Version,
    pub revision: i64,
    pub dataset_versions: Seq<Seq<char>>,
    pub status: Status,
}

impl View for ObjectGroupRevision {
    type V = RevisionView;

    open spec fn view(&self) -> RevisionView {
        RevisionView {
            id: self.id@,
            dataset_id: self.dataset_id@,
            object_group_id: self.object_group_id@,
            date_create: self.date_create,
            labels: self.labels.deep_view(),
            metadata: self.metadata.deep_view(),
            objects_count: self.objects_count,
            objects: self.objects.deep_view(),
            version: self.version,
            revision: self.revision,
            dataset_versions: self.dataset_versions.deep_view(),
            status: self.status,
        }
    }
}

impl DeepView for ObjectGroupRevision {
    type V = RevisionView;

    open spec fn deep_view(&self) -> RevisionView {
        self.view()
    }
}

impl Clone for ObjectGroupRevision {
    fn clone(&self) -> (r: Self)
        ensures
            r@ == self@,
    {
        let labels = self.labels.clone();
        let metadata = self.metadata.clone();
        let objects = self.objects.clone();
        let dataset_versions = self.dataset_versions.clone();
        proof {
            assert(labels.deep_view() =~= self.labels.deep_view());
            assert(metadata.deep_view() =~= self.metadata.deep_view());
            assert(objects.deep_view() =~= self.objects.deep_view());
            assert(dataset_versions.deep_view() =~= self.dataset_versions.deep_view());
        }
        ObjectGroupRevision {
            id: self.id.clone(),
            dataset_id: self.dataset_id.clone(),
            object_group_id: self.object_group_id.clone(),
            date_create: self.date_create,
            labels,
            metadata,
            objects_count: self.objects_count,
            objects,
            version: self.version,
            revision: self.revision,
            dataset_versions,
            status: self.status,
        }
    }
}

impl ObjectGroupRevision {
    /// Name of the collection revisions persist in.
    pub fn collection_name() -> (r: String)
        ensures
            r@ == "ObjectGroupRevision"@,
    {
        "ObjectGroupRevision".to_owned()
    }

    /// Revisions are read by their owning object group.
    pub fn parent_field_name() -> (r: Option<String>)
        ensures
            r matches Some(f) && f@ == "object_group_id"@,
    {
        Some("object_group_id".to_owned())
    }

    /// A fresh revision of `group`, carrying `objects` and numbered
    /// `revision`; it starts `Initializing` with no dataset version
    /// referencing it.
    pub fn new(
        id: String,
        group: &ObjectGroup,
        revision: i64,
        objects: Vec<DatasetObject>,
        labels: Vec<Label>,
        metadata: Vec<Metadata>,
        created: i64,
    ) -> (r: Self)
        requires
            objects@.len() <= i64::MAX,
        ensures
            r@.id == id@,
            r@.dataset_id == group@.dataset_id,
            r@.object_group_id == group@.id,
            r@.date_create == created,
            r@.labels == labels.deep_view(),
            r@.metadata == metadata.deep_view(),
            r@.objects_count == objects@.len(),
            r@.objects == objects.deep_view(),
            r@.version == (Version {
                major: 0,
                minor: 0,
                patch: 0,
                revision: 0,
                version_stage: crate::common::VersionStage::Alpha,
            }),
            r@.revision == revision,
            r@.dataset_versions == Seq::<Seq<char>>::empty(),
            r@.status == Status::Initializing,
    {
        let objects_count = objects.len() as i64;
        let dataset_versions: Vec<String> = Vec::new();
        let r = ObjectGroupRevision {
            id,
            dataset_id: group.dataset_id.clone(),
            object_group_id: group.id.clone(),
            date_create: created,
            labels,
            metadata,
            objects_count,
            objects,
            version: Version {
                major: 0,
                minor: 0,
                patch: 0,
                revision: 0,
                version_stage: crate::common::VersionStage::Alpha,
            },
            revision,
            dataset_versions,
            status: Status::Initializing,
        };
        proof {
            assert(r.dataset_versions.deep_view() =~= Seq::<Seq<char>>::empty());
        }
        r
    }
}

} // verus!
