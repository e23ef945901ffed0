//! Shared model vocabulary: rights, resources, lifecycle status, labels,
//! metadata, storage locations and users, together with the mathematical
//! views the contracts are stated over.

use vstd::prelude::*;

verus! {

/// A right a caller can hold on a project.
#[derive(Clone, Copy, Debug, PartialEq, Eq, Structural)]
pub enum Right {
    Read,
    Write,
}

/// The kind of resource an RPC refers to; authorization resolves each kind
/// back to its owning project.
#[derive(Clone, Copy, Debug, PartialEq, Eq, Structural)]
pub enum Resource {
    Project,
    Dataset,
    DatasetVersion,
    ObjectGroup,
    ObjectGroupRevision,
    Object,
}

/// Lifecycle status shared by all persisted entities.
#[derive(Clone, Copy, Debug, PartialEq, Eq, Structural)]
pub enum Status {
    Available,
    Initializing,
    Updating,
    Archived,
    Deleting,
}

impl core::default::Default for Status {
    fn default() -> (r: Self)
        ensures
            r == Status::Available,
    {
        Status::Available
    }
}

/// How an object group revision is referenced in a lookup: directly or
/// through the group's version history.
#[derive(Clone, Copy, Debug, PartialEq, Eq, Structural)]
pub enum ObjectGroupIDType {
    ObjectGroup,
    ObjectGroupVersion,
}

/// A semantic version attached to a dataset version.
#[derive(Clone, Copy, Debug, PartialEq, Eq, Structural)]
pub struct Version {
    pub major: i32,
    pub minor: i32,
    pub patch: i32,
    pub revision: i32,
    pub version_stage: VersionStage,
}

#[derive(Clone, Copy, Debug, PartialEq, Eq, Structural)]
pub enum VersionStage {
    Stable,
    ReleaseCandidate,
    Beta,
    Alpha,
}

impl core::default::Default for VersionStage {
    fn default() -> (r: Self)
        ensures
            r == VersionStage::Alpha,
    {
        VersionStage::Alpha
    }
}

impl core::default::Default for Version {
    fn default() -> (r: Self)
        ensures
            r == (Version {
                major: 0,
                minor: 0,
                patch: 0,
                revision: 0,
                version_stage: VersionStage::Alpha,
            }),
    {
        Version { major: 0, minor: 0, patch: 0, revision: 0, version_stage: VersionStage::Alpha }
    }
}

/// Byte range inside a stored object, for index-typed locations.
#[derive(Clone, Copy, Debug, PartialEq, Eq, Structural)]
pub struct IndexLocation {
    pub start_byte: i64,
    pub end_byte: i64,
}

#[derive(Clone, Copy, Debug, PartialEq, Eq, Structural)]
pub enum LocationType {
    Object,
    Index,
}

impl core::default::Default for LocationType {
    fn default() -> (r: Self)
        ensures
            r == LocationType::Object,
    {
        LocationType::Object
    }
}

#[derive(Clone, Copy, Debug, PartialEq, Eq, Structural)]
pub enum OriginType {
    ObjectStorage,
    ObjectLink,
}

impl core::default::Default for OriginType {
    fn default() -> (r: Self)
        ensures
            r == OriginType::ObjectStorage,
    {
        OriginType::ObjectStorage
    }
}

/// A user entry embedded in a project, with the rights granted there.
#[derive(Debug)]
pub struct User {
    pub user_id: String,
    pub rights: Vec<Right>,
}

/// Mathematical value of a [`User`].
pub struct UserView {
    pub user_id: Seq<char>,
    pub rights: Seq<Right>,
}

impl View for User {
    type V = UserView;

    open spec fn view(&self) -> UserView {
        UserView { user_id: self.user_id@, rights: self.rights@ }
    }
}

impl DeepView for User {
    type V = UserView;

    open spec fn deep_view(&self) -> UserView {
        self.view()
    }
}

impl Clone for User {
    fn clone(&self) -> (r: Self)
        ensures
            r@ == self@,
    {
        User { user_id: self.user_id.clone(), rights: self.rights.clone() }
    }
}

/// A free-form key/value annotation.
#[derive(Debug)]
pub struct Label {
    pub key: String,
    pub value: String,
}

/// Mathematical value of a [`Label`].
pub struct LabelView {
    pub key: Seq<char>,
    pub value: Seq<char>,
}

impl View for Label {
    type V = LabelView;

    open spec fn view(&self) -> LabelView {
        LabelView { key: self.key@, value: self.value@ }
    }
}

impl DeepView for Label {
    type V = LabelView;

    open spec fn deep_view(&self) -> LabelView {
        self.view()
    }
}

impl Clone for Label {
    fn clone(&self) -> (r: Self)
        ensures
            r@ == self@,
    {
        Label { key: self.key.clone(), value: self.value.clone() }
    }
}

/// Schema tag carried by metadata entries; opaque to the core.
#[derive(Debug)]
pub enum Schema {
    SimpleSchema(String),
}

impl View for Schema {
    type V = Seq<char>;

    open spec fn view(&self) -> Seq<char> {
        match self {
            Schema::SimpleSchema(s) => s@,
        }
    }
}

impl DeepView for Schema {
    type V = Seq<char>;

    open spec fn deep_view(&self) -> Seq<char> {
        self.view()
    }
}

impl Clone for Schema {
    fn clone(&self) -> (r: Self)
        ensures
            r@ == self@,
    {
        match self {
            Schema::SimpleSchema(s) => Schema::SimpleSchema(s.clone()),
        }
    }
}

/// Structured metadata: a key, raw bytes, labels and an optional schema tag.
#[derive(Debug)]
pub struct Metadata {
    pub key: String,
    pub labels: Vec<Label>,
    pub metadata: Vec<u8>,
    pub schema: Option<Schema>,
}

/// Mathematical value of a [`Metadata`] entry.
pub struct MetadataView {
    pub key: Seq<char>,
    pub labels: Seq<LabelView>,
    pub metadata: Seq<u8>,
    pub schema: Option<Seq<char>>,
}

impl View for Metadata {
    type V = MetadataView;

    open spec fn view(&self) -> MetadataView {
        MetadataView {
            key: self.key@,
            labels: self.labels.deep_view(),
            metadata: self.metadata@,
            schema: self.schema.deep_view(),
        }
    }
}

impl DeepView for Metadata {
    type V = MetadataView;

    open spec fn deep_view(&self) -> MetadataView {
        self.view()
    }
}

impl Clone for Metadata {
    fn clone(&self) -> (r: Self)
        ensures
            r@ == self@,
    {
        let labels = self.labels.clone();
        let schema = match &self.schema {
            Some(s) => Some(s.clone()),
            None => None,
        };
        proof {
            assert(labels.deep_view() =~= self.labels.deep_view());
        }
        Metadata { key: self.key.clone(), labels, metadata: self.metadata.clone(), schema }
    }
}

/// The place of an object's payload in the object store.
#[derive(Debug)]
pub struct Location {
    pub bucket: String,
    pub key: String,
    pub url: String,
    pub location_type: LocationType,
    pub index_location: IndexLocation,
}

/// Mathematical value of a [`Location`].
pub struct LocationView {
    pub bucket: Seq<char>,
    pub key: Seq<char>,
    pub url: Seq<char>,
    pub location_type: LocationType,
    pub index_location: IndexLocation,
}

impl View for Location {
    type V = LocationView;

    open spec fn view(&self) -> LocationView {
        LocationView {
            bucket: self.bucket@,
            key: self.key@,
            url: self.url@,
            location_type: self.location_type,
            index_location: self.index_location,
        }
    }
}

impl DeepView for Location {
    type V = LocationView;

    open spec fn deep_view(&self) -> LocationView {
        self.view()
    }
}

impl Clone for Location {
    fn clone(&self) -> (r: Self)
        ensures
            r@ == self@,
    {
        Location {
            bucket: self.bucket.clone(),
            key: self.key.clone(),
            url: self.url.clone(),
            location_type: self.location_type,
            index_location: self.index_location,
        }
    }
}

/// Where an object's bytes came from.
#[derive(Debug)]
pub struct Origin {
    pub link: String,
    pub location: Location,
    pub origin_type: OriginType,
}

/// Mathematical value of an [`Origin`].
pub struct OriginView {
    pub link: Seq<char>,
    pub location: LocationView,
    pub origin_type: OriginType,
}

impl View for Origin {
    type V = OriginView;

    open spec fn view(&self) -> OriginView {
        OriginView { link: self.link@, location: self.location@, origin_type: self.origin_type }
    }
}

impl DeepView for Origin {
    type V = OriginView;

    open spec fn deep_view(&self) -> OriginView {
        self.view()
    }
}

impl Clone for Origin {
    fn clone(&self) -> (r: Self)
        ensures
            r@ == self@,
    {
        Origin {
            link: self.link.clone(),
            location: self.location.clone(),
            origin_type: self.origin_type,
        }
    }
}

/// Whether `users` grants `right` to `user_id`.
pub open spec fn users_grant(users: Seq<UserView>, user_id: Seq<char>, right: Right) -> bool {
    exists|i: int|
        0 <= i < users.len() && users[i].user_id == user_id && users[i].rights.contains(right)
}

/// Whether every right in `wanted` occurs in `held`.
pub open spec fn rights_superset(held: Seq<Right>, wanted: Seq<Right>) -> bool {
    forall|i: int| 0 <= i < wanted.len() ==> held.contains(#[trigger] wanted[i])
}

/// Decides `rights@.contains(right)`.
pub fn rights_contain(rights: &Vec<Right>, right: Right) -> (found: bool)
    ensures
        found == rights@.contains(right),
{
    let mut i: usize = 0;
    while i < rights.len()
        invariant
            i <= rights@.len(),
            forall|j: int| 0 <= j < i ==> rights@[j] != right,
        decreases rights@.len() - i,
    {
        if rights[i] == right {
            return true;
        }
        i = i + 1;
    }
    false
}

/// Decides [`users_grant`]: some user entry matches `user_id` and holds
/// `right`.
pub fn users_grant_right(users: &Vec<User>, user_id: &str, right: Right) -> (granted: bool)
    ensures
        granted == users_grant(users.deep_view(), user_id@, right),
{
    let wanted: String = user_id.to_owned();
    let mut i: usize = 0;
    while i < users.len()
        invariant
            i <= users@.len(),
            wanted@ == user_id@,
            forall|j: int|
                0 <= j < i ==> !(users.deep_view()[j].user_id == user_id@
                    && users.deep_view()[j].rights.contains(right)),
        decreases users@.len() - i,
    {
        if users[i].user_id == wanted {
            if rights_contain(&users[i].rights, right) {
                proof {
                    assert(users.deep_view()[i as int].user_id == user_id@);
                    assert(users.deep_view()[i as int].rights.contains(right));
                }
                return true;
            }
        }
        i = i + 1;
    }
    false
}

} // verus!
