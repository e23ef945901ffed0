//! Plain request messages of the RPC surface.  The transport decodes wire
//! messages into these values; the service functions consume them.

use vstd::prelude::*;

use crate::common::{Label, LabelView, Metadata, MetadataView, Version};

verus! {

/// Request for one object inside a new revision.
#[derive(Debug)]
pub struct CreateObjectRequest {
    pub filename: String,
    pub filetype: String,
    pub content_len: i64,
    pub metadata: Vec<Metadata>,
}

/// Mathematical value of a [`CreateObjectRequest`].
pub struct CreateObjectRequestView {
    pub filename: Seq<char>,
    pub filetype: Seq<char>,
    pub content_len: i64,
    pub metadata: Seq<MetadataView>,
}

impl View for CreateObjectRequest {
    type V = CreateObjectRequestView;

    open spec fn view(&self) -> CreateObjectRequestView {
        CreateObjectRequestView {
            filename: self.filename@,
            filetype: self.filetype@,
            content_len: self.content_len,
            metadata: self.metadata.deep_view(),
        }
    }
}

impl DeepView for CreateObjectRequest {
    type V = CreateObjectRequestView;

    open spec fn deep_view(&self) -> CreateObjectRequestView {
        self.view()
    }
}

impl Clone for CreateObjectRequest {
    fn clone(&self) -> (r: Self)
        ensures
            r@ == self@,
    {
        let metadata = self.metadata.clone();
        proof {
            assert(metadata.deep_view() =~= self.metadata.deep_view());
        }
        CreateObjectRequest {
            filename: self.filename.clone(),
            filetype: self.filetype.clone(),
            content_len: self.content_len,
            metadata,
        }
    }
}

/// Request for a new revision of an object group.
#[derive(Debug)]
pub struct CreateObjectGroupRevisionRequest {
    pub labels: Vec<Label>,
    pub metadata: Vec<Metadata>,
    pub objects: Vec<CreateObjectRequest>,
}

/// Request for a new object group, optionally with its first revision.
#[derive(Debug)]
pub struct CreateObjectGroupRequest {
    pub dataset_id: String,
    pub name: String,
    pub labels: Vec<Label>,
    pub metadata: Vec<Metadata>,
    pub object_group_revision: Option<CreateObjectGroupRevisionRequest>,
}

/// Request for a new project.
#[derive(Debug)]
pub struct CreateProjectRequest {
    pub name: String,
    pub description: String,
    pub labels: Vec<Label>,
    pub metadata: Vec<Metadata>,
}

/// Request for a new dataset under a project.
#[derive(Debug)]
pub struct CreateDatasetRequest {
    pub project_id: String,
    pub name: String,
    pub labels: Vec<Label>,
    pub metadata: Vec<Metadata>,
}

/// Request to release a dataset version freezing `revision_ids`.  The
/// version sub-message is required; a request without one is rejected as
/// invalid.
#[derive(Debug)]
pub struct ReleaseDatasetVersionRequest {
    pub dataset_id: String,
    pub labels: Vec<Label>,
    pub metadata: Vec<Metadata>,
    pub version: Option<Version>,
    pub revision_ids: Vec<String>,
}

/// Request to append a revision to an existing object group.
#[derive(Debug)]
pub struct AddRevisionToObjectGroupRequest {
    pub object_group_id: String,
    pub group_revision: Option<CreateObjectGroupRevisionRequest>,
}

/// Auth-bearing metadata of an inbound call: the two recognized entries.
#[derive(Debug)]
pub struct RequestMetadata {
    pub access_token: Option<String>,
    pub api_token: Option<String>,
}


/// Request to grant a user both rights on a project.
#[derive(Debug)]
pub struct AddUserToProjectRequest {
    pub user_id: String,
    pub project_id: String,
}

/// How a revision lookup names its revision.
#[derive(Clone, Copy, Debug, PartialEq, Eq, Structural)]
pub enum RevisionReference {
    Version,
    Revision,
    Id,
}

/// Request for one revision of an object group, by id, by revision
/// number, or by version tag.
#[derive(Debug)]
pub struct GetObjectGroupRevisionRequest {
    pub reference_type: RevisionReference,
    pub id: String,
    pub object_group_id: String,
    pub revision: i64,
}

} // verus!
