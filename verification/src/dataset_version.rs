//! Dataset versions: immutable releases that freeze a set of revision ids.

use vstd::prelude::*;

use crate::common::{Label, LabelView, Metadata, MetadataView, Status, Version};

verus! {

/// A release of a dataset: a frozen list of revision ids.
#[derive(Debug)]
pub struct DatasetVersion {
    pub id: String,
    pub dataset_id: String,
    pub description: String,
    pub labels: Vec<Label>,
    pub metadata: Vec<Metadata>,
    pub created: i64,
    pub version: Version,
    pub object_group_ids: Vec<String>,
    pub object_count: i64,
    pub status: Status,
}

/// Mathematical value of a [`DatasetVersion`].
pub struct DatasetVersionView {
    pub id: Seq<char>,
    pub dataset_id: Seq<char>,
    pub description: Seq<char>,
    pub labels: Seq<LabelView>,
    pub metadata: Seq<MetadataView>,
    pub created: i64,
    pub version: Version,
    pub object_group_ids: Seq<Seq<char>>,
    pub object_count: i64,
    pub status: Status,
}

impl View for DatasetVersion {
    type V = DatasetVersionView;

    open spec fn view(&self) -> DatasetVersionView {
        DatasetVersionView {
            id: self.id@,
            dataset_id: self.dataset_id@,
            description: self.description@,
            labels: self.labels.deep_view(),
            metadata: self.metadata.deep_view(),
            created: self.created,
            version: self.version,
            object_group_ids: self.object_group_ids.deep_view(),
            object_count: self.object_count,
            status: self.status,
        }
    }
}

impl DeepView for DatasetVersion {
    type V = DatasetVersionView;

    open spec fn deep_view(&self) -> DatasetVersionView {
        self.view()
    }
}

impl Clone for DatasetVersion {
    fn clone(&self) -> (r: Self)
        ensures
            r@ == self@,
    {
        let labels = self.labels.clone();
        let metadata = self.metadata.clone();
        let object_group_ids = self.object_group_ids.clone();
        proof {
            assert(labels.deep_view() =~= self.labels.deep_view());
            assert(metadata.deep_view() =~= self.metadata.deep_view());
            assert(object_group_ids.deep_view() =~= self.object_group_ids.deep_view());
        }
        DatasetVersion {
            id: self.id.clone(),
            dataset_id: self.dataset_id.clone(),
            description: self.description.clone(),
            labels,
            metadata,
            created: self.created,
            version: self.version,
            object_group_ids,
            object_count: self.object_count,
            status: self.status,
        }
    }
}

impl DatasetVersion {
    /// Name of the collection dataset versions persist in.
    pub fn collection_name() -> (r: String)
        ensures
            r@ == "DatasetVersion"@,
    {
        "DatasetVersion".to_owned()
    }

    /// Dataset versions are read by their owning dataset.
    pub fn parent_field_name() -> (r: Option<String>)
        ensures
            r matches Some(f) && f@ == "dataset_id"@,
    {
        Some("dataset_id".to_owned())
    }

    /// A fresh release of `dataset_id` freezing `revision_ids`; its
    /// `object_count` is the length of that list, and it is immediately
    /// `Available`.
    pub fn new(
        id: String,
        dataset_id: String,
        labels: Vec<Label>,
        metadata: Vec<Metadata>,
        version: Version,
        revision_ids: Vec<String>,
        created: i64,
    ) -> (r: Self)
        requires
            revision_ids@.len() <= i64::MAX,
        ensures
            r@.id == id@,
            r@.dataset_id == dataset_id@,
            r@.description == Seq::<char>::empty(),
            r@.labels == labels.deep_view(),
            r@.metadata == metadata.deep_view(),
            r@.created == created,
            r@.version == version,
            r@.object_group_ids == revision_ids.deep_view(),
            r@.object_count == revision_ids@.len(),
            r@.status == Status::Available,
    {
        let object_count = revision_ids.len() as i64;
        DatasetVersion {
            id,
            dataset_id,
            description: String::new(),
            labels,
            metadata,
            created,
            version,
            object_group_ids: revision_ids,
            object_count,
            status: Status::Available,
        }
    }
}

} // verus!
