//! Datasets: named collections of object groups inside a project.

use vstd::prelude::*;

use crate::common::{Label, LabelView, Metadata, MetadataView, Status};

verus! {

/// A dataset under a project.
#[derive(Debug)]
pub struct DatasetEntry {
    pub id: String,
    pub name: String,
    pub description: String,
    pub is_public: bool,
    pub created: i64,
    pub status: Status,
    pub project_id: String,
    pub labels: Vec<Label>,
    pub metadata: Vec<Metadata>,
}

/// Mathematical value of a [`DatasetEntry`].
pub struct DatasetView {
    pub id: Seq<char>,
    pub name: Seq<char>,
    pub description: Seq<char>,
    pub is_public: bool,
    pub created: i64,
    pub status: Status,
    pub project_id: Seq<char>,
    pub labels: Seq<LabelView>,
    pub metadata: Seq<MetadataView>,
}

impl View for DatasetEntry {
    type V = DatasetView;

    open spec fn view(&self) -> DatasetView {
        DatasetView {
            id: self.id@,
            name: self.name@,
            description: self.description@,
            is_public: self.is_public,
            created: self.created,
            status: self.status,
            project_id: self.project_id@,
            labels: self.labels.deep_view(),
            metadata: self.metadata.deep_view(),
        }
    }
}

impl DeepView for DatasetEntry {
    type V = DatasetView;

    open spec fn deep_view(&self) -> DatasetView {
        self.view()
    }
}

impl Clone for DatasetEntry {
    fn clone(&self) -> (r: Self)
        ensures
            r@ == self@,
    {
        let labels = self.labels.clone();
        let metadata = self.metadata.clone();
        proof {
            assert(labels.deep_view() =~= self.labels.deep_view());
            assert(metadata.deep_view() =~= self.metadata.deep_view());
        }
        DatasetEntry {
            id: self.id.clone(),
            name: self.name.clone(),
            description: self.description.clone(),
            is_public: self.is_public,
            created: self.created,
            status: self.status,
            project_id: self.project_id.clone(),
            labels,
            metadata,
        }
    }
}

impl DatasetEntry {
    /// Name of the collection datasets persist in.
    pub fn collection_name() -> (r: String)
        ensures
            r@ == "Dataset"@,
    {
        "Dataset".to_owned()
    }

    /// Datasets are read by their owning project.
    pub fn parent_field_name() -> (r: Option<String>)
        ensures
            r matches Some(f) && f@ == "project_id"@,
    {
        Some("project_id".to_owned())
    }

    /// A fresh dataset: not public, immediately `Available`, with an empty
    /// description.
    pub fn new(
        id: String,
        name: String,
        project_id: String,
        labels: Vec<Label>,
        metadata: Vec<Metadata>,
        created: i64,
    ) -> (r: Self)
        ensures
            r@.id == id@,
            r@.name == name@,
            r@.description == Seq::<char>::empty(),
            r@.is_public == false,
            r@.created == created,
            r@.status == Status::Available,
            r@.project_id == project_id@,
            r@.labels == labels.deep_view(),
            r@.metadata == metadata.deep_view(),
    {
        DatasetEntry {
            id,
            name,
            description: String::new(),
            is_public: false,
            created,
            status: Status::Available,
            project_id,
            labels,
            metadata,
        }
    }
}

} // verus!
