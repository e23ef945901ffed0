//! Projects: the root of the ownership hierarchy and the access-control
//! boundary.

use vstd::prelude::*;

use crate::common::{Label, LabelView, Metadata, MetadataView, Right, User, UserView};

verus! {

/// The root entity: owns datasets and carries the user/right entries that
/// authorization checks against.
#[derive(Debug)]
pub struct ProjectEntry {
    pub id: String,
    pub description: String,
    pub users: Vec<User>,
    pub name: String,
    pub labels: Vec<Label>,
    pub metadata: Vec<Metadata>,
}

/// Mathematical value of a [`ProjectEntry`].
pub struct ProjectView {
    pub id: Seq<char>,
    pub description: Seq<char>,
    pub users: Seq<UserView>,
    pub name: Seq<char>,
    pub labels: Seq<LabelView>,
    pub metadata: Seq<MetadataView>,
}

impl View for ProjectEntry {
    type V = ProjectView;

    open spec fn view(&self) -> ProjectView {
        ProjectView {
            id: self.id@,
            description: self.description@,
            users: self.users.deep_view(),
            name: self.name@,
            labels: self.labels.deep_view(),
            metadata: self.metadata.deep_view(),
        }
    }
}

impl DeepView for ProjectEntry {
    type V = ProjectView;

    open spec fn deep_view(&self) -> ProjectView {
        self.view()
    }
}

impl Clone for ProjectEntry {
    fn clone(&self) -> (r: Self)
        ensures
            r@ == self@,
    {
        let users = self.users.clone();
        let labels = self.labels.clone();
        let metadata = self.metadata.clone();
        proof {
            assert(users.deep_view() =~= self.users.deep_view());
            assert(labels.deep_view() =~= self.labels.deep_view());
            assert(metadata.deep_view() =~= self.metadata.deep_view());
        }
        ProjectEntry {
            id: self.id.clone(),
            description: self.description.clone(),
            users,
            name: self.name.clone(),
            labels,
            metadata,
        }
    }
}

/// The user list a freshly created project carries: its creator, holding
/// both rights.
pub open spec fn project_creator_users(user_id: Seq<char>) -> Seq<UserView> {
    seq![UserView { user_id: user_id, rights: seq![Right::Write, Right::Read] }]
}

impl ProjectEntry {
    /// Name of the collection projects persist in.
    pub fn collection_name() -> (r: String)
        ensures
            r@ == "project"@,
    {
        "project".to_owned()
    }

    /// Projects have no parent.
    pub fn parent_field_name() -> (r: Option<String>)
        ensures
            r is None,
    {
        None
    }

    /// A fresh project: the creator is its only user and holds Write and
    /// Read.
    pub fn new(
        id: String,
        name: String,
        description: String,
        labels: Vec<Label>,
        metadata: Vec<Metadata>,
        user_id: String,
    ) -> (r: Self)
        ensures
            r@.id == id@,
            r@.name == name@,
            r@.description == description@,
            r@.labels == labels.deep_view(),
            r@.metadata == metadata.deep_view(),
            r@.users == project_creator_users(user_id@),
    {
        let rights: Vec<Right> = vec![Right::Write, Right::Read];
        let users: Vec<User> = vec![User { user_id, rights }];
        let r = ProjectEntry { id, description, users, name, labels, metadata };
        proof {
            assert(r@.users =~= project_creator_users(r.users@[0].user_id@));
        }
        r
    }
}

} // verus!
