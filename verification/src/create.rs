//! Create handlers: the transitions that add projects, datasets, object
//! groups, revisions, dataset versions and API tokens to the store.
//!
//! Each create comes in two layers: a `*_with_id` transition that takes
//! the new ids as arguments and succeeds exactly when they are unused
//! (and, for revisions and releases, the named entities exist), and a
//! drawing wrapper that feeds it fresh UUIDs.  A drawn id colliding with
//! an existing one is an adapter-level fault and surfaces as an internal
//! error with the store untouched.

use vstd::prelude::*;

use crate::apitoken::APIToken;
use crate::common::{Label, Metadata, Right, Status, Version};
use crate::dataset_model::DatasetEntry;
use crate::dataset_object_group::{DatasetObject, ObjectGroup, ObjectGroupView,
    ObjectGroupRevision, RevisionView};
use crate::dataset_version::DatasetVersion;
use crate::error::{ApiError, ErrorKind};
use crate::objectstorage::revision_object_key;
use crate::outside::{new_uuid, now_timestamp_millis};
use crate::project_model::{project_creator_users, ProjectEntry};
use crate::requests::{CreateObjectRequest, CreateObjectRequestView};
use crate::store::{has_dataset, has_group, has_object, has_project, has_revision, has_version,
    lemma_links_unchanged, lemma_links_push_revision, same_except_datasets, same_except_groups,
    same_except_groups_and_revisions, same_except_projects, same_except_tokens,
    same_except_versions_and_revisions, wf, MetaStore};

verus! {

/// Creates a project under the given id, owned by `user_id`, who becomes
/// its only user with Write and Read rights.  Fails exactly when the id
/// is already taken.
pub fn create_project_with_id(
    store: &mut MetaStore,
    id: String,
    name: &str,
    description: &str,
    labels: Vec<Label>,
    metadata: Vec<Metadata>,
    user_id: &str,
) -> (r: Result<ProjectEntry, ApiError>)
    requires
        wf(old(store)@),
    ensures
        wf(final(store)@),
        r is Err <==> has_project(old(store)@, id@),
        match r {
            Ok(p) => {
                &&& p@.id == id@
                &&& final(store)@.projects == old(store)@.projects.push(p@)
                &&& same_except_projects(old(store)@, final(store)@)
                &&& !has_project(old(store)@, p@.id)
                &&& p@.name == name@
                &&& p@.description == description@
                &&& p@.labels == labels.deep_view()
                &&& p@.metadata == metadata.deep_view()
                &&& p@.users == project_creator_users(user_id@)
            },
            Err(e) => *final(store) == *old(store) && e.kind == ErrorKind::Internal,
        },
{
    match store.find_project(id.as_str()) {
        Some(_) => Err(ApiError::new(ErrorKind::Internal, "could not store created project")),
        None => {
            let ghost old_sv = store@;
            let p = ProjectEntry::new(
                id,
                name.to_owned(),
                description.to_owned(),
                labels,
                metadata,
                user_id.to_owned(),
            );
            let p2 = p.clone();
            store.projects.push(p2);
            proof {
                assert(store@.projects =~= old_sv.projects.push(p@));
                assert(same_except_projects(old_sv, store@));
                assert forall|i: int, j: int|
                    0 <= i < j < store@.projects.len() implies (#[trigger] store@.projects[i]).id
                    != (#[trigger] store@.projects[j]).id by {
                    if j == store@.projects.len() - 1 {
                        assert(store@.projects[i] == old_sv.projects[i]);
                    }
                }
                lemma_links_unchanged(old_sv, store@);
                assert(wf(store@));
            }
            Ok(p)
        },
    }
}

/// Creates a project under a freshly drawn UUID; a draw colliding with an
/// existing project id is the only failure.
pub fn create_project(
    store: &mut MetaStore,
    name: &str,
    description: &str,
    labels: Vec<Label>,
    metadata: Vec<Metadata>,
    user_id: &str,
) -> (r: Result<ProjectEntry, ApiError>)
    requires
        wf(old(store)@),
    ensures
        wf(final(store)@),
        match r {
            Ok(p) => {
                &&& final(store)@.projects == old(store)@.projects.push(p@)
                &&& same_except_projects(old(store)@, final(store)@)
                &&& !has_project(old(store)@, p@.id)
                &&& p@.name == name@
                &&& p@.description == description@
                &&& p@.labels == labels.deep_view()
                &&& p@.metadata == metadata.deep_view()
                &&& p@.users == project_creator_users(user_id@)
            },
            Err(e) => *final(store) == *old(store) && e.kind == ErrorKind::Internal,
        },
{
    let id = new_uuid();
    create_project_with_id(store, id, name, description, labels, metadata, user_id)
}

/// Creates a dataset under the given id; it starts `Available`, not
/// public, stamped with the current time.  Fails exactly when the id is
/// already taken.
pub fn create_dataset_with_id(
    store: &mut MetaStore,
    id: String,
    name: &str,
    project_id: &str,
    labels: Vec<Label>,
    metadata: Vec<Metadata>,
) -> (r: Result<DatasetEntry, ApiError>)
    requires
        wf(old(store)@),
    ensures
        wf(final(store)@),
        r is Err <==> has_dataset(old(store)@, id@),
        match r {
            Ok(d) => {
                &&& d@.id == id@
                &&& final(store)@.datasets == old(store)@.datasets.push(d@)
                &&& same_except_datasets(old(store)@, final(store)@)
                &&& !has_dataset(old(store)@, d@.id)
                &&& d@.name == name@
                &&& d@.project_id == project_id@
                &&& d@.labels == labels.deep_view()
                &&& d@.metadata == metadata.deep_view()
                &&& d@.status == crate::common::Status::Available
                &&& d@.is_public == false
            },
            Err(e) => *final(store) == *old(store) && e.kind == ErrorKind::Internal,
        },
{
    match store.find_dataset(id.as_str()) {
        Some(_) => Err(ApiError::new(ErrorKind::Internal, "could not store created dataset")),
        None => {
            let ghost old_sv = store@;
            let created = now_timestamp_millis();
            let d = DatasetEntry::new(
                id,
                name.to_owned(),
                project_id.to_owned(),
                labels,
                metadata,
                created,
            );
            let d2 = d.clone();
            store.datasets.push(d2);
            proof {
                assert(store@.datasets =~= old_sv.datasets.push(d@));
                assert(same_except_datasets(old_sv, store@));
                assert forall|i: int, j: int|
                    0 <= i < j < store@.datasets.len() implies (#[trigger] store@.datasets[i]).id
                    != (#[trigger] store@.datasets[j]).id by {
                    if j == store@.datasets.len() - 1 {
                        assert(store@.datasets[i] == old_sv.datasets[i]);
                    }
                }
                lemma_links_unchanged(old_sv, store@);
                assert(wf(store@));
            }
            Ok(d)
        },
    }
}

/// Creates a dataset under a freshly drawn UUID; a draw colliding with an
/// existing dataset id is the only failure.
pub fn create_dataset(
    store: &mut MetaStore,
    name: &str,
    project_id: &str,
    labels: Vec<Label>,
    metadata: Vec<Metadata>,
) -> (r: Result<DatasetEntry, ApiError>)
    requires
        wf(old(store)@),
    ensures
        wf(final(store)@),
        match r {
            Ok(d) => {
                &&& final(store)@.datasets == old(store)@.datasets.push(d@)
                &&& same_except_datasets(old(store)@, final(store)@)
                &&& !has_dataset(old(store)@, d@.id)
                &&& d@.name == name@
                &&& d@.project_id == project_id@
                &&& d@.labels == labels.deep_view()
                &&& d@.metadata == metadata.deep_view()
                &&& d@.status == crate::common::Status::Available
                &&& d@.is_public == false
            },
            Err(e) => *final(store) == *old(store) && e.kind == ErrorKind::Internal,
        },
{
    let id = new_uuid();
    create_dataset_with_id(store, id, name, project_id, labels, metadata)
}

/// Creates an object group under the given id with no revisions yet; it
/// starts `Initializing` with its counter at zero.  Fails exactly when
/// the id is already taken.
pub fn create_object_group_with_id(
    store: &mut MetaStore,
    id: String,
    name: &str,
    dataset_id: &str,
    labels: Vec<Label>,
    metadata: Vec<Metadata>,
) -> (r: Result<ObjectGroup, ApiError>)
    requires
        wf(old(store)@),
    ensures
        wf(final(store)@),
        r is Err <==> has_group(old(store)@, id@),
        match r {
            Ok(g) => {
                &&& g@.id == id@
                &&& final(store)@.object_groups == old(store)@.object_groups.push(g@)
                &&& same_except_groups(old(store)@, final(store)@)
                &&& !has_group(old(store)@, g@.id)
                &&& g@.name == name@
                &&& g@.dataset_id == dataset_id@
                &&& g@.labels == labels.deep_view()
                &&& g@.metadata == metadata.deep_view()
                &&& g@.status == crate::common::Status::Initializing
                &&& g@.head_id == Seq::<char>::empty()
                &&& g@.revision_counter == 0
            },
            Err(e) => *final(store) == *old(store) && e.kind == ErrorKind::Internal,
        },
{
    match store.find_object_group(id.as_str()) {
        Some(_) => Err(
            ApiError::new(ErrorKind::Internal, "could not store created object group"),
        ),
        None => {
            let ghost old_sv = store@;
            let g = ObjectGroup::new(id, name.to_owned(), dataset_id.to_owned(), labels, metadata);
            let g2 = g.clone();
            store.object_groups.push(g2);
            proof {
                assert(store@.object_groups =~= old_sv.object_groups.push(g@));
                assert(same_except_groups(old_sv, store@));
                assert forall|i: int, j: int|
                    0 <= i < j < store@.object_groups.len() implies (#[trigger] store@.object_groups[i]).id
                    != (#[trigger] store@.object_groups[j]).id by {
                    if j == store@.object_groups.len() - 1 {
                        assert(store@.object_groups[i] == old_sv.object_groups[i]);
                    }
                }
                assert forall|gi: int, ri: int|
                    #![trigger store@.object_groups[gi], store@.revisions[ri]]
                    0 <= gi < store@.object_groups.len() && 0 <= ri < store@.revisions.len()
                        && store@.revisions[ri].object_group_id == store@.object_groups[gi].id
                    implies 0 <= store@.revisions[ri].revision
                        < store@.object_groups[gi].revision_counter
                        && store@.revisions[ri].dataset_id
                        == store@.object_groups[gi].dataset_id by {
                    if gi == store@.object_groups.len() - 1 {
                        assert(crate::store::group_named(
                            old_sv.object_groups,
                            store@.revisions[ri].object_group_id,
                        ));
                        assert(false);
                    } else {
                        assert(store@.object_groups[gi] == old_sv.object_groups[gi]);
                    }
                }
                assert forall|ri: int| 0 <= ri < store@.revisions.len() implies crate::store::group_named(
                    store@.object_groups,
                    (#[trigger] store@.revisions[ri]).object_group_id,
                ) by {
                    assert(crate::store::group_named(
                        old_sv.object_groups,
                        store@.revisions[ri].object_group_id,
                    ));
                    let gi = choose|gi: int|
                        0 <= gi < old_sv.object_groups.len() && (#[trigger] old_sv.object_groups[gi]).id
                            == store@.revisions[ri].object_group_id;
                    assert(store@.object_groups[gi].id == store@.revisions[ri].object_group_id);
                }
                lemma_links_unchanged(old_sv, store@);
                assert(wf(store@));
            }
            Ok(g)
        },
    }
}

/// Creates an object group under a freshly drawn UUID; a draw colliding
/// with an existing group id is the only failure.
pub fn create_object_group(
    store: &mut MetaStore,
    name: &str,
    dataset_id: &str,
    labels: Vec<Label>,
    metadata: Vec<Metadata>,
) -> (r: Result<ObjectGroup, ApiError>)
    requires
        wf(old(store)@),
    ensures
        wf(final(store)@),
        match r {
            Ok(g) => {
                &&& final(store)@.object_groups == old(store)@.object_groups.push(g@)
                &&& same_except_groups(old(store)@, final(store)@)
                &&& !has_group(old(store)@, g@.id)
                &&& g@.name == name@
                &&& g@.dataset_id == dataset_id@
                &&& g@.labels == labels.deep_view()
                &&& g@.metadata == metadata.deep_view()
                &&& g@.status == crate::common::Status::Initializing
                &&& g@.head_id == Seq::<char>::empty()
                &&& g@.revision_counter == 0
            },
            Err(e) => *final(store) == *old(store) && e.kind == ErrorKind::Internal,
        },
{
    let id = new_uuid();
    create_object_group_with_id(store, id, name, dataset_id, labels, metadata)
}

/// Creates an API token under the given id for `user_id`, carrying
/// `rights` on `project_id`.  Fails exactly when the id is already taken.
pub fn create_api_token_with_id(
    store: &mut MetaStore,
    id: String,
    user_id: &str,
    rights: Vec<Right>,
    project_id: &str,
) -> (r: Result<APIToken, ApiError>)
    requires
        wf(old(store)@),
    ensures
        wf(final(store)@),
        r is Err <==> exists|i: int|
            0 <= i < old(store)@.api_tokens.len() && (#[trigger] old(store)@.api_tokens[i]).id
                == id@,
        match r {
            Ok(t) => {
                &&& t@.id == id@
                &&& final(store)@.api_tokens == old(store)@.api_tokens.push(t@)
                &&& same_except_tokens(old(store)@, final(store)@)
                &&& t@.user_id == user_id@
                &&& t@.project_id == project_id@
                &&& t@.rights == rights@
                &&& t@.token.len() == crate::apitoken::TOKEN_LEN
            },
            Err(e) => *final(store) == *old(store) && e.kind == ErrorKind::Internal,
        },
{
    if store.find_api_token_by_id(id.as_str()).is_some() {
        return Err(ApiError::new(ErrorKind::Internal, "could not store created api token"));
    }
    let ghost old_sv = store@;
    let t = APIToken::new(id, user_id, rights, project_id);
    let t2 = t.clone();
    store.api_tokens.push(t2);
    proof {
        assert(store@.api_tokens =~= old_sv.api_tokens.push(t@));
        assert(same_except_tokens(old_sv, store@));
        assert forall|a: int, b: int|
            0 <= a < b < store@.api_tokens.len() implies (#[trigger] store@.api_tokens[a]).id
            != (#[trigger] store@.api_tokens[b]).id by {
            if b == store@.api_tokens.len() - 1 {
                assert(store@.api_tokens[a] == old_sv.api_tokens[a]);
            }
        }
        lemma_links_unchanged(old_sv, store@);
        assert(wf(store@));
    }
    Ok(t)
}

/// Creates an API token under a freshly drawn UUID; a draw colliding with
/// an existing token id is the only failure.
pub fn create_api_token(
    store: &mut MetaStore,
    user_id: &str,
    rights: Vec<Right>,
    project_id: &str,
) -> (r: Result<APIToken, ApiError>)
    requires
        wf(old(store)@),
    ensures
        wf(final(store)@),
        match r {
            Ok(t) => {
                &&& final(store)@.api_tokens == old(store)@.api_tokens.push(t@)
                &&& same_except_tokens(old(store)@, final(store)@)
                &&& t@.user_id == user_id@
                &&& t@.project_id == project_id@
                &&& t@.rights == rights@
                &&& t@.token.len() == crate::apitoken::TOKEN_LEN
            },
            Err(e) => *final(store) == *old(store) && e.kind == ErrorKind::Internal,
        },
{
    let id = new_uuid();
    create_api_token_with_id(store, id, user_id, rights, project_id)
}


/// `g` after an append: its revision counter advanced by one and its
/// head pointing at the new revision.
pub open spec fn advanced_group(g: ObjectGroupView, head: Seq<char>) -> ObjectGroupView {
    ObjectGroupView { revision_counter: (g.revision_counter + 1) as i64, head_id: head, ..g }
}

/// Every id in `ids` is unused by any embedded object, and the ids are
/// pairwise distinct.
pub open spec fn object_ids_fresh(sv: crate::store::StoreView, ids: Seq<Seq<char>>) -> bool {
    &&& (forall|i: int| 0 <= i < ids.len() ==> !has_object(sv, #[trigger] ids[i]))
    &&& (forall|i: int, j: int|
        #![trigger ids[i], ids[j]]
        0 <= i < j < ids.len() ==> ids[i] != ids[j])
}

/// The group named `gid` exists and its counter can still be advanced.
pub open spec fn group_counter_open(sv: crate::store::StoreView, gid: Seq<char>) -> bool {
    exists|g: int|
        0 <= g < sv.object_groups.len() && (#[trigger] sv.object_groups[g]).id == gid
            && sv.object_groups[g].revision_counter < i64::MAX
}

/// The object `o` realises the request `q` inside a revision of
/// `dataset_id` stored under `bucket`: fields copied, key following the
/// revision key convention, upload not yet started.
pub open spec fn object_matches_request(
    o: crate::dataset_object_group::ObjectView,
    q: CreateObjectRequestView,
    dataset_id: Seq<char>,
    bucket: Seq<char>,
) -> bool {
    &&& o.filename == q.filename
    &&& o.filetype == q.filetype
    &&& o.content_len == q.content_len
    &&& o.metadata == q.metadata
    &&& o.upload_id == Seq::<char>::empty()
    &&& o.location.bucket == bucket
    &&& o.location.key == revision_object_key(dataset_id, o.id, o.filename)
}

/// `r` after a release of version `vid` over `ids`: if the revision is
/// frozen by the release, `vid` joins its reverse index (once), otherwise
/// it is untouched.
pub open spec fn with_version_marked(
    r: RevisionView,
    ids: Seq<Seq<char>>,
    vid: Seq<char>,
) -> RevisionView {
    if ids.contains(r.id) {
        RevisionView {
            dataset_versions: if r.dataset_versions.contains(vid) {
                r.dataset_versions
            } else {
                r.dataset_versions.push(vid)
            },
            ..r
        }
    } else {
        r
    }
}

/// Decides `v.deep_view().contains(s@)`.
pub(crate) fn string_vec_contains(v: &Vec<String>, s: &str) -> (b: bool)
    ensures
        b == v.deep_view().contains(s@),
{
    let wanted: String = s.to_owned();
    let mut i: usize = 0;
    while i < v.len()
        invariant
            i <= v@.len(),
            wanted@ == s@,
            forall|j: int| 0 <= j < i ==> v.deep_view()[j] != s@,
        decreases v@.len() - i,
    {
        if v[i] == wanted {
            proof {
                assert(v.deep_view()[i as int] == s@);
            }
            return true;
        }
        i = i + 1;
    }
    proof {
        assert forall|j: int| 0 <= j < v.deep_view().len() implies v.deep_view()[j] != s@ by {}
    }
    false
}

/// Decides whether some object in `objs` carries `id`.
fn objects_have_id(objs: &Vec<DatasetObject>, id: &str) -> (b: bool)
    ensures
        b == exists|i: int|
            0 <= i < objs.deep_view().len() && (#[trigger] objs.deep_view()[i]).id == id@,
{
    let wanted: String = id.to_owned();
    let mut i: usize = 0;
    while i < objs.len()
        invariant
            i <= objs@.len(),
            wanted@ == id@,
            forall|j: int| 0 <= j < i ==> (#[trigger] objs.deep_view()[j]).id != id@,
        decreases objs@.len() - i,
    {
        if objs[i].id == wanted {
            proof {
                assert(objs.deep_view()[i as int].id == id@);
            }
            return true;
        }
        i = i + 1;
    }
    false
}

/// Appends a revision under the given revision and object ids: the
/// group's counter is advanced atomically, its head moves to the new
/// revision, and the revision takes the number the counter held before.
/// Succeeds exactly when the group exists with its counter unexhausted,
/// the object list fits the counter type, and all given ids are unused.
#[verifier::loop_isolation(false)]
pub fn create_revision_with_ids(
    store: &mut MetaStore,
    group_id: &str,
    rev_id: String,
    object_ids: Vec<String>,
    objects: Vec<CreateObjectRequest>,
    labels: Vec<Label>,
    metadata: Vec<Metadata>,
    bucket: &str,
) -> (r: Result<(ObjectGroup, ObjectGroupRevision), ApiError>)
    requires
        wf(old(store)@),
        object_ids@.len() == objects@.len(),
    ensures
        wf(final(store)@),
        r is Ok <==> {
            &&& has_group(old(store)@, group_id@)
            &&& group_counter_open(old(store)@, group_id@)
            &&& objects@.len() <= i64::MAX
            &&& !has_revision(old(store)@, rev_id@)
            &&& object_ids_fresh(old(store)@, object_ids.deep_view())
        },
        match r {
            Ok((g2, rev)) => {
                &&& has_group(old(store)@, group_id@)
                &&& g2@.id == group_id@
                &&& rev@.id == rev_id@
                &&& g2@.head_id == rev@.id
                &&& (forall|i: int|
                    0 <= i < rev@.objects.len() ==> (#[trigger] rev@.objects[i]).id
                        == object_ids.deep_view()[i])
                &&& rev@.object_group_id == group_id@
                &&& rev@.dataset_id == g2@.dataset_id
                &&& rev@.revision >= 0
                &&& g2@.revision_counter == rev@.revision + 1
                &&& !has_revision(old(store)@, rev@.id)
                &&& rev@.labels == labels.deep_view()
                &&& rev@.metadata == metadata.deep_view()
                &&& rev@.objects.len() == objects@.len()
                &&& rev@.objects_count == objects@.len()
                &&& (forall|i: int|
                    0 <= i < rev@.objects.len() ==> object_matches_request(
                        #[trigger] rev@.objects[i],
                        objects.deep_view()[i],
                        g2@.dataset_id,
                        bucket@,
                    ))
                &&& rev@.dataset_versions == Seq::<Seq<char>>::empty()
                &&& rev@.status == Status::Initializing
                &&& final(store)@.revisions == old(store)@.revisions.push(rev@)
                &&& same_except_groups_and_revisions(old(store)@, final(store)@)
                &&& (exists|gi: int|
                    0 <= gi < old(store)@.object_groups.len()
                        && (#[trigger] old(store)@.object_groups[gi]).id == group_id@
                        && old(store)@.object_groups[gi].revision_counter == rev@.revision
                        && g2@ == advanced_group(old(store)@.object_groups[gi], rev@.id)
                        && final(store)@.object_groups == old(store)@.object_groups.update(
                        gi,
                        g2@,
                    ))
            },
            Err(e) => {
                &&& *final(store) == *old(store)
                &&& (e.kind == ErrorKind::NotFound || e.kind == ErrorKind::Internal)
                &&& (e.kind == ErrorKind::NotFound <==> !has_group(old(store)@, group_id@))
            },
        },
{
    let gi = match store.find_object_group(group_id) {
        None => {
            return Err(
                ApiError::new(ErrorKind::NotFound, "could not find requested document. type: ObjectGroup"),
            );
        },
        Some(gi) => gi,
    };
    let g_old = store.object_groups[gi].clone();
    proof {
        assert(g_old@ == store@.object_groups[gi as int]);
        assert(has_group(store@, group_id@));
    }
    if g_old.revision_counter == i64::MAX {
        proof {
            assert forall|g: int|
                0 <= g < store@.object_groups.len() && (#[trigger] store@.object_groups[g]).id
                    == group_id@ implies store@.object_groups[g].revision_counter >= i64::MAX by {
                assert(g == gi);
            }
        }
        return Err(ApiError::new(ErrorKind::Internal, "revision counter exhausted"));
    }
    if store.find_revision(rev_id.as_str()).is_some() {
        return Err(ApiError::new(ErrorKind::Internal, "could not store created revision"));
    }
    if objects.len() as u64 > i64::MAX as u64 {
        return Err(ApiError::new(ErrorKind::Internal, "too many objects in one revision"));
    }
    let created = now_timestamp_millis();
    let ghost old_sv = store@;
    let mut objs: Vec<DatasetObject> = Vec::new();
    let mut qi: usize = 0;
    while qi < objects.len()
        invariant
            qi <= objects@.len(),
            objs.deep_view().len() == qi,
            *store == *old(store),
            g_old@.dataset_id == old_sv.object_groups[gi as int].dataset_id,
            forall|i: int|
                0 <= i < qi ==> object_matches_request(
                    #[trigger] objs.deep_view()[i],
                    objects.deep_view()[i],
                    g_old@.dataset_id,
                    bucket@,
                ),
            forall|i: int| 0 <= i < qi ==> !has_object(old_sv, (#[trigger] objs.deep_view()[i]).id),
            forall|i: int, j: int|
                #![trigger objs.deep_view()[i], objs.deep_view()[j]]
                0 <= i < j < qi ==> objs.deep_view()[i].id != objs.deep_view()[j].id,
            forall|i: int|
                0 <= i < qi ==> (#[trigger] objs.deep_view()[i]).id == object_ids.deep_view()[i],
        decreases objects@.len() - qi,
    {
        let oid = object_ids[qi].clone();
        proof {
            assert(oid@ == object_ids.deep_view()[qi as int]);
        }
        if store.find_object(oid.as_str()).is_some() {
            proof {
                assert(has_object(old_sv, object_ids.deep_view()[qi as int]));
            }
            return Err(ApiError::new(ErrorKind::Internal, "could not store created object"));
        }
        if objects_have_id(&objs, oid.as_str()) {
            proof {
                let j = choose|j: int|
                    0 <= j < objs.deep_view().len() && (#[trigger] objs.deep_view()[j]).id == oid@;
                assert(object_ids.deep_view()[j] == object_ids.deep_view()[qi as int]);
            }
            return Err(ApiError::new(ErrorKind::Internal, "could not store created object"));
        }
        let q = objects[qi].clone();
        let o = DatasetObject::new(
            oid,
            q.filename,
            q.filetype,
            q.content_len,
            q.metadata,
            g_old.dataset_id.as_str(),
            bucket,
            created,
        );
        let ghost pre = objs.deep_view();
        let ghost o_view = o@;
        objs.push(o);
        proof {
            assert(objs.deep_view() =~= pre.push(o_view));
            assert(object_matches_request(
                objs.deep_view()[qi as int],
                objects.deep_view()[qi as int],
                g_old@.dataset_id,
                bucket@,
            ));
        }
        qi = qi + 1;
    }
    let revision_number = g_old.revision_counter;
    let mut g2 = g_old.clone();
    g2.revision_counter = g2.revision_counter + 1;
    g2.head_id = rev_id.clone();
    let ghost objs_view = objs.deep_view();
    let rev = ObjectGroupRevision::new(
        rev_id,
        &g2,
        revision_number,
        objs,
        labels,
        metadata,
        created,
    );
    let g2c = g2.clone();
    let revc = rev.clone();
    store.object_groups[gi] = g2c;
    store.revisions.push(revc);
    proof {
        assert(store@.object_groups =~= old_sv.object_groups.update(gi as int, g2@));
        assert(store@.revisions =~= old_sv.revisions.push(rev@));
        assert(same_except_groups_and_revisions(old_sv, store@));
        assert(g2@ == advanced_group(old_sv.object_groups[gi as int], rev@.id));
        assert(group_counter_open(old_sv, group_id@));
        assert forall|i: int|
            0 <= i < object_ids.deep_view().len() implies !has_object(
            old_sv,
            #[trigger] object_ids.deep_view()[i],
        ) by {
            assert(objs_view[i].id == object_ids.deep_view()[i]);
            assert(!has_object(old_sv, objs_view[i].id));
        }
        assert forall|i: int, j: int|
            #![trigger object_ids.deep_view()[i], object_ids.deep_view()[j]]
            0 <= i < j < object_ids.deep_view().len() implies object_ids.deep_view()[i]
            != object_ids.deep_view()[j] by {
            assert(objs_view[i].id == object_ids.deep_view()[i]);
            assert(objs_view[j].id == object_ids.deep_view()[j]);
            assert(objs_view[i].id != objs_view[j].id);
        }
        assert(object_ids_fresh(old_sv, object_ids.deep_view()));
        let new_sv = store@;
        let ghost ri_new = new_sv.revisions.len() - 1;
        // unique group ids survive the in-place update
        assert forall|a: int, b: int|
            0 <= a < b < new_sv.object_groups.len() implies (#[trigger] new_sv.object_groups[a]).id
            != (#[trigger] new_sv.object_groups[b]).id by {
            assert(new_sv.object_groups[a].id == old_sv.object_groups[a].id);
            assert(new_sv.object_groups[b].id == old_sv.object_groups[b].id);
        }
        // unique revision ids: the new one was checked fresh
        assert forall|a: int, b: int|
            0 <= a < b < new_sv.revisions.len() implies (#[trigger] new_sv.revisions[a]).id
            != (#[trigger] new_sv.revisions[b]).id by {
            if b == ri_new {
                assert(new_sv.revisions[a] == old_sv.revisions[a]);
                assert(!has_revision(old_sv, rev@.id));
            }
        }
        // object ids stay globally unique
        assert forall|i: int, k: int, j: int, l: int|
            #![trigger new_sv.revisions[i].objects[k], new_sv.revisions[j].objects[l]]
            0 <= i < new_sv.revisions.len() && 0 <= k < new_sv.revisions[i].objects.len() && 0 <= j
                < new_sv.revisions.len() && 0 <= l < new_sv.revisions[j].objects.len() && (i != j
                || k != l) implies new_sv.revisions[i].objects[k].id
            != new_sv.revisions[j].objects[l].id by {
            if i < ri_new && j < ri_new {
                assert(new_sv.revisions[i] == old_sv.revisions[i]);
                assert(new_sv.revisions[j] == old_sv.revisions[j]);
            } else if i == ri_new && j == ri_new {
                assert(new_sv.revisions[i].objects == objs_view);
            } else if i == ri_new {
                assert(new_sv.revisions[i].objects == objs_view);
                assert(new_sv.revisions[j] == old_sv.revisions[j]);
                assert(!has_object(old_sv, objs_view[k].id));
                if new_sv.revisions[i].objects[k].id == new_sv.revisions[j].objects[l].id {
                    assert(has_object(old_sv, objs_view[k].id));
                }
            } else {
                assert(new_sv.revisions[j].objects == objs_view);
                assert(new_sv.revisions[i] == old_sv.revisions[i]);
                assert(!has_object(old_sv, objs_view[l].id));
                if new_sv.revisions[i].objects[k].id == new_sv.revisions[j].objects[l].id {
                    assert(has_object(old_sv, objs_view[l].id));
                }
            }
        }
        // counters still bound every revision
        assert forall|g: int, r: int|
            #![trigger new_sv.object_groups[g], new_sv.revisions[r]]
            0 <= g < new_sv.object_groups.len() && 0 <= r < new_sv.revisions.len()
                && new_sv.revisions[r].object_group_id == new_sv.object_groups[g].id implies 0
            <= new_sv.revisions[r].revision < new_sv.object_groups[g].revision_counter
            && new_sv.revisions[r].dataset_id == new_sv.object_groups[g].dataset_id by {
            if r < ri_new {
                assert(new_sv.revisions[r] == old_sv.revisions[r]);
                if g == gi {
                    assert(old_sv.object_groups[g].id == group_id@);
                } else {
                    assert(new_sv.object_groups[g] == old_sv.object_groups[g]);
                }
            } else {
                assert(new_sv.revisions[r] == rev@);
                if g == gi {
                } else {
                    assert(new_sv.object_groups[g] == old_sv.object_groups[g]);
                    assert(old_sv.object_groups[g].id != old_sv.object_groups[gi as int].id);
                    assert(false);
                }
            }
        }
        // every revision still has its parent group
        assert forall|r: int| 0 <= r < new_sv.revisions.len() implies crate::store::group_named(
            new_sv.object_groups,
            (#[trigger] new_sv.revisions[r]).object_group_id,
        ) by {
            if r < ri_new {
                assert(new_sv.revisions[r] == old_sv.revisions[r]);
                assert(crate::store::group_named(
                    old_sv.object_groups,
                    old_sv.revisions[r].object_group_id,
                ));
                let gw = choose|gw: int|
                    0 <= gw < old_sv.object_groups.len() && (#[trigger] old_sv.object_groups[gw]).id
                        == old_sv.revisions[r].object_group_id;
                assert(new_sv.object_groups[gw].id == old_sv.object_groups[gw].id);
            } else {
                assert(new_sv.object_groups[gi as int].id == group_id@);
            }
        }
        // appended revision keeps numbers increasing inside its group
        assert forall|a: int, b: int|
            #![trigger new_sv.revisions[a], new_sv.revisions[b]]
            0 <= a < b < new_sv.revisions.len() && new_sv.revisions[a].object_group_id
                == new_sv.revisions[b].object_group_id implies new_sv.revisions[a].revision
            < new_sv.revisions[b].revision by {
            if b < ri_new {
                assert(new_sv.revisions[a] == old_sv.revisions[a]);
                assert(new_sv.revisions[b] == old_sv.revisions[b]);
            } else {
                assert(new_sv.revisions[b] == rev@);
                assert(new_sv.revisions[a] == old_sv.revisions[a]);
                assert(old_sv.object_groups[gi as int].id == group_id@);
            }
        }
        lemma_links_push_revision(old_sv, new_sv, rev@);
        assert(wf(new_sv));
    }
    Ok((g2, rev))
}

/// Appends a revision to the group `group_id` under freshly drawn UUIDs
/// for the revision and each object; a draw colliding with an existing id
/// is the only failure beyond a missing group.
#[verifier::loop_isolation(false)]
pub fn create_revision_for_group(
    store: &mut MetaStore,
    group_id: &str,
    objects: Vec<CreateObjectRequest>,
    labels: Vec<Label>,
    metadata: Vec<Metadata>,
    bucket: &str,
) -> (r: Result<(ObjectGroup, ObjectGroupRevision), ApiError>)
    requires
        wf(old(store)@),
    ensures
        wf(final(store)@),
        match r {
            Ok((g2, rev)) => {
                &&& has_group(old(store)@, group_id@)
                &&& g2@.id == group_id@
                &&& g2@.head_id == rev@.id
                &&& rev@.object_group_id == group_id@
                &&& rev@.dataset_id == g2@.dataset_id
                &&& rev@.revision >= 0
                &&& g2@.revision_counter == rev@.revision + 1
                &&& !has_revision(old(store)@, rev@.id)
                &&& rev@.labels == labels.deep_view()
                &&& rev@.metadata == metadata.deep_view()
                &&& rev@.objects.len() == objects@.len()
                &&& rev@.objects_count == objects@.len()
                &&& (forall|i: int|
                    0 <= i < rev@.objects.len() ==> object_matches_request(
                        #[trigger] rev@.objects[i],
                        objects.deep_view()[i],
                        g2@.dataset_id,
                        bucket@,
                    ))
                &&& rev@.dataset_versions == Seq::<Seq<char>>::empty()
                &&& rev@.status == Status::Initializing
                &&& final(store)@.revisions == old(store)@.revisions.push(rev@)
                &&& same_except_groups_and_revisions(old(store)@, final(store)@)
                &&& (exists|gi: int|
                    0 <= gi < old(store)@.object_groups.len()
                        && (#[trigger] old(store)@.object_groups[gi]).id == group_id@
                        && old(store)@.object_groups[gi].revision_counter == rev@.revision
                        && g2@ == advanced_group(old(store)@.object_groups[gi], rev@.id)
                        && final(store)@.object_groups == old(store)@.object_groups.update(
                        gi,
                        g2@,
                    ))
            },
            Err(e) => {
                &&& *final(store) == *old(store)
                &&& (e.kind == ErrorKind::NotFound || e.kind == ErrorKind::Internal)
                &&& (e.kind == ErrorKind::NotFound <==> !has_group(old(store)@, group_id@))
            },
        },
{
    let rev_id = new_uuid();
    let mut object_ids: Vec<String> = Vec::new();
    let mut k: usize = 0;
    while k < objects.len()
        invariant
            k <= objects@.len(),
            object_ids@.len() == k,
        decreases objects@.len() - k,
    {
        object_ids.push(new_uuid());
        k = k + 1;
    }
    create_revision_with_ids(store, group_id, rev_id, object_ids, objects, labels, metadata,
        bucket)
}


/// Releases a dataset version under the given id, freezing
/// `revision_ids`: the version entry is inserted and every frozen
/// revision's reverse index gains the new version's id (idempotently, as
/// `$addToSet` does).  Succeeds exactly when every frozen revision
/// exists, the list fits the count type and the id is unused.
#[verifier::loop_isolation(false)]
pub fn create_dataset_version_with_id(
    store: &mut MetaStore,
    vid: String,
    dataset_id: &str,
    labels: Vec<Label>,
    metadata: Vec<Metadata>,
    version: Version,
    revision_ids: Vec<String>,
) -> (r: Result<DatasetVersion, ApiError>)
    requires
        wf(old(store)@),
    ensures
        wf(final(store)@),
        r is Ok <==> {
            &&& (forall|k: int|
                0 <= k < revision_ids.deep_view().len() ==> has_revision(
                    old(store)@,
                    #[trigger] revision_ids.deep_view()[k],
                ))
            &&& revision_ids@.len() <= i64::MAX
            &&& !has_version(old(store)@, vid@)
        },
        match r {
            Ok(v) => {
                &&& v@.id == vid@
                &&& v@.dataset_id == dataset_id@
                &&& v@.object_group_ids == revision_ids.deep_view()
                &&& v@.object_count == revision_ids@.len()
                &&& v@.labels == labels.deep_view()
                &&& v@.metadata == metadata.deep_view()
                &&& v@.version == version
                &&& v@.status == Status::Available
                &&& !has_version(old(store)@, v@.id)
                &&& (forall|k: int|
                    0 <= k < revision_ids.deep_view().len() ==> has_revision(
                        old(store)@,
                        #[trigger] revision_ids.deep_view()[k],
                    ))
                &&& final(store)@.dataset_versions == old(store)@.dataset_versions.push(v@)
                &&& final(store)@.revisions.len() == old(store)@.revisions.len()
                &&& (forall|i: int|
                    0 <= i < old(store)@.revisions.len() ==> #[trigger] final(store)@.revisions[i]
                        == with_version_marked(
                        old(store)@.revisions[i],
                        revision_ids.deep_view(),
                        v@.id,
                    ))
                &&& same_except_versions_and_revisions(old(store)@, final(store)@)
            },
            Err(e) => {
                &&& *final(store) == *old(store)
                &&& (e.kind == ErrorKind::NotFound || e.kind == ErrorKind::Internal)
                &&& (e.kind == ErrorKind::NotFound <==> exists|k: int|
                    0 <= k < revision_ids.deep_view().len() && !has_revision(
                        old(store)@,
                        #[trigger] revision_ids.deep_view()[k],
                    ))
            },
        },
{
    let mut k: usize = 0;
    while k < revision_ids.len()
        invariant
            k <= revision_ids@.len(),
            forall|j: int|
                0 <= j < k ==> has_revision(store@, #[trigger] revision_ids.deep_view()[j]),
        decreases revision_ids@.len() - k,
    {
        if store.find_revision(revision_ids[k].as_str()).is_none() {
            proof {
                assert(!has_revision(store@, revision_ids.deep_view()[k as int]));
            }
            return Err(ApiError::new(ErrorKind::NotFound, "could not find requested document. type: ObjectGroupRevision"));
        }
        k = k + 1;
    }
    if revision_ids.len() as u64 > i64::MAX as u64 {
        return Err(ApiError::new(ErrorKind::Internal, "too many revisions in one version"));
    }
    if store.find_dataset_version(vid.as_str()).is_some() {
        return Err(ApiError::new(ErrorKind::Internal, "could not store created version"));
    }
    let created = now_timestamp_millis();
    let ghost old_sv = store@;
    let ghost ids_view = revision_ids.deep_view();
    let ids2 = revision_ids.clone();
    proof {
        assert(ids2.deep_view() =~= revision_ids.deep_view());
    }
    let v = DatasetVersion::new(
        vid.clone(),
        dataset_id.to_owned(),
        labels,
        metadata,
        version,
        revision_ids,
        created,
    );
    let ghost vid_view = v@.id;
    let vc = v.clone();
    store.dataset_versions.push(vc);
    proof {
        assert(store@.dataset_versions =~= old_sv.dataset_versions.push(v@));
    }
    let ghost mid_versions = store@.dataset_versions;
    let mut ri: usize = 0;
    while ri < store.revisions.len()
        invariant
            ri <= store@.revisions.len(),
            store@.revisions.len() == old_sv.revisions.len(),
            store@.dataset_versions == mid_versions,
            store@.projects == old_sv.projects,
            store@.datasets == old_sv.datasets,
            store@.object_groups == old_sv.object_groups,
            store@.api_tokens == old_sv.api_tokens,
            vid@ == vid_view,
            forall|i: int|
                0 <= i < ri ==> #[trigger] store@.revisions[i] == with_version_marked(
                    old_sv.revisions[i],
                    ids_view,
                    vid_view,
                ),
            forall|i: int|
                ri <= i < old_sv.revisions.len() ==> #[trigger] store@.revisions[i]
                    == old_sv.revisions[i],
        decreases store@.revisions.len() - ri,
    {
        let rid = store.revisions[ri].id.clone();
        if string_vec_contains(&ids2, rid.as_str()) {
            let mut upd = store.revisions[ri].clone();
            let ghost pre_dv = upd.dataset_versions.deep_view();
            if !string_vec_contains(&upd.dataset_versions, vid.as_str()) {
                upd.dataset_versions.push(vid.clone());
                proof {
                    assert(upd.dataset_versions.deep_view() =~= pre_dv.push(vid_view));
                }
            }
            let ghost upd_view = upd@;
            let ghost pre_revs = store@.revisions;
            store.revisions[ri] = upd;
            proof {
                assert(store@.revisions =~= pre_revs.update(ri as int, upd_view));
                assert(store@.revisions[ri as int] == upd_view);
                assert(ids_view.contains(old_sv.revisions[ri as int].id));
                assert(store@.revisions[ri as int] == with_version_marked(
                    old_sv.revisions[ri as int],
                    ids_view,
                    vid_view,
                ));
            }
        } else {
            proof {
                assert(!ids_view.contains(old_sv.revisions[ri as int].id));
                assert(store@.revisions[ri as int] == with_version_marked(
                    old_sv.revisions[ri as int],
                    ids_view,
                    vid_view,
                ));
            }
        }
        ri = ri + 1;
    }
    proof {
        let new_sv = store@;
        let ghost vi_new = new_sv.dataset_versions.len() - 1;
        // marked revisions keep their ids, numbers, objects and parents
        assert forall|i: int| 0 <= i < new_sv.revisions.len() implies {
            &&& (#[trigger] new_sv.revisions[i]).id == old_sv.revisions[i].id
            &&& new_sv.revisions[i].object_group_id == old_sv.revisions[i].object_group_id
            &&& new_sv.revisions[i].dataset_id == old_sv.revisions[i].dataset_id
            &&& new_sv.revisions[i].revision == old_sv.revisions[i].revision
            &&& new_sv.revisions[i].objects == old_sv.revisions[i].objects
        } by {
            assert(new_sv.revisions[i] == with_version_marked(
                old_sv.revisions[i],
                ids_view,
                vid_view,
            ));
        }
        assert forall|a: int, b: int|
            0 <= a < b < new_sv.revisions.len() implies (#[trigger] new_sv.revisions[a]).id
            != (#[trigger] new_sv.revisions[b]).id by {}
        assert forall|a: int, b: int|
            0 <= a < b < new_sv.dataset_versions.len() implies (#[trigger] new_sv.dataset_versions[a]).id
            != (#[trigger] new_sv.dataset_versions[b]).id by {
            if b == vi_new {
                assert(new_sv.dataset_versions[a] == old_sv.dataset_versions[a]);
                assert(!has_version(old_sv, vid_view));
            }
        }
        assert forall|i: int, k2: int, j: int, l: int|
            #![trigger new_sv.revisions[i].objects[k2], new_sv.revisions[j].objects[l]]
            0 <= i < new_sv.revisions.len() && 0 <= k2 < new_sv.revisions[i].objects.len() && 0 <= j
                < new_sv.revisions.len() && 0 <= l < new_sv.revisions[j].objects.len() && (i != j
                || k2 != l) implies new_sv.revisions[i].objects[k2].id
            != new_sv.revisions[j].objects[l].id by {
            assert(new_sv.revisions[i].objects == old_sv.revisions[i].objects);
            assert(new_sv.revisions[j].objects == old_sv.revisions[j].objects);
            assert(old_sv.revisions[i].objects[k2].id != old_sv.revisions[j].objects[l].id);
        }
        assert forall|g: int, r2: int|
            #![trigger new_sv.object_groups[g], new_sv.revisions[r2]]
            0 <= g < new_sv.object_groups.len() && 0 <= r2 < new_sv.revisions.len()
                && new_sv.revisions[r2].object_group_id == new_sv.object_groups[g].id implies 0
            <= new_sv.revisions[r2].revision < new_sv.object_groups[g].revision_counter
            && new_sv.revisions[r2].dataset_id == new_sv.object_groups[g].dataset_id by {
            assert(old_sv.revisions[r2].object_group_id == old_sv.object_groups[g].id);
        }
        assert forall|r2: int| 0 <= r2 < new_sv.revisions.len() implies crate::store::group_named(
            new_sv.object_groups,
            (#[trigger] new_sv.revisions[r2]).object_group_id,
        ) by {
            assert(crate::store::group_named(
                old_sv.object_groups,
                old_sv.revisions[r2].object_group_id,
            ));
        }
        assert forall|a: int, b: int|
            #![trigger new_sv.revisions[a], new_sv.revisions[b]]
            0 <= a < b < new_sv.revisions.len() && new_sv.revisions[a].object_group_id
                == new_sv.revisions[b].object_group_id implies new_sv.revisions[a].revision
            < new_sv.revisions[b].revision by {
            assert(old_sv.revisions[a].object_group_id == old_sv.revisions[b].object_group_id);
        }
        // the version/revision links, both directions
        assert forall|v2: int, k2: int|
            0 <= v2 < new_sv.dataset_versions.len() && 0 <= k2
                < new_sv.dataset_versions[v2].object_group_ids.len()
            implies #[trigger] crate::store::version_link_at(
            new_sv.revisions,
            new_sv.dataset_versions,
            v2,
            k2,
        ) by {
            if v2 < vi_new {
                assert(new_sv.dataset_versions[v2] == old_sv.dataset_versions[v2]);
                assert(crate::store::version_link_at(
                    old_sv.revisions,
                    old_sv.dataset_versions,
                    v2,
                    k2,
                ));
                let r2 = choose|r2: int|
                    0 <= r2 < old_sv.revisions.len() && (#[trigger] old_sv.revisions[r2]).id
                        == old_sv.dataset_versions[v2].object_group_ids[k2]
                        && old_sv.revisions[r2].dataset_versions.contains(
                        old_sv.dataset_versions[v2].id,
                    );
                let old_dv = old_sv.revisions[r2].dataset_versions;
                let new_dv = new_sv.revisions[r2].dataset_versions;
                let w = choose|w: int| 0 <= w < old_dv.len() && old_dv[w] == old_sv.dataset_versions[v2].id;
                assert(new_sv.revisions[r2] == with_version_marked(
                    old_sv.revisions[r2],
                    ids_view,
                    vid_view,
                ));
                assert(new_dv[w] == old_dv[w]);
                assert(new_dv.contains(old_sv.dataset_versions[v2].id));
                assert(new_sv.revisions[r2].id == old_sv.revisions[r2].id);
            } else {
                // the new version itself
                assert(new_sv.dataset_versions[v2] == v@);
                assert(v@.object_group_ids == ids_view);
                assert(has_revision(old_sv, ids_view[k2]));
                let r2 = choose|r2: int|
                    0 <= r2 < old_sv.revisions.len() && (#[trigger] old_sv.revisions[r2]).id
                        == ids_view[k2];
                assert(new_sv.revisions[r2] == with_version_marked(
                    old_sv.revisions[r2],
                    ids_view,
                    vid_view,
                ));
                assert(ids_view.contains(old_sv.revisions[r2].id));
                let old_dv = old_sv.revisions[r2].dataset_versions;
                let new_dv = new_sv.revisions[r2].dataset_versions;
                if old_dv.contains(vid_view) {
                    assert(new_dv == old_dv);
                } else {
                    assert(new_dv == old_dv.push(vid_view));
                    assert(new_dv[new_dv.len() - 1] == vid_view);
                }
                assert(new_dv.contains(vid_view));
                assert(new_sv.dataset_versions[v2].id == vid_view);
                assert(new_sv.revisions[r2].id == ids_view[k2]);
            }
        }
        assert forall|r2: int, k2: int|
            0 <= r2 < new_sv.revisions.len() && 0 <= k2 < new_sv.revisions[r2].dataset_versions.len()
            implies #[trigger] crate::store::revision_link_at(
            new_sv.revisions,
            new_sv.dataset_versions,
            r2,
            k2,
        ) by {
            assert(new_sv.revisions[r2] == with_version_marked(
                old_sv.revisions[r2],
                ids_view,
                vid_view,
            ));
            let old_dv = old_sv.revisions[r2].dataset_versions;
            let new_dv = new_sv.revisions[r2].dataset_versions;
            if k2 < old_dv.len() && new_dv[k2] == old_dv[k2] {
                assert(crate::store::revision_link_at(
                    old_sv.revisions,
                    old_sv.dataset_versions,
                    r2,
                    k2,
                ));
                let w = choose|w: int|
                    0 <= w < old_sv.dataset_versions.len() && (#[trigger] old_sv.dataset_versions[w]).id
                        == old_dv[k2] && old_sv.dataset_versions[w].object_group_ids.contains(
                        old_sv.revisions[r2].id,
                    );
                assert(new_sv.dataset_versions[w] == old_sv.dataset_versions[w]);
                assert(new_sv.revisions[r2].id == old_sv.revisions[r2].id);
            } else {
                // the appended entry: it names the new version
                assert(ids_view.contains(old_sv.revisions[r2].id));
                assert(!old_dv.contains(vid_view));
                assert(new_dv == old_dv.push(vid_view));
                assert(k2 == old_dv.len());
                assert(new_dv[k2] == vid_view);
                assert(new_sv.dataset_versions[vi_new] == v@);
                assert(v@.object_group_ids.contains(new_sv.revisions[r2].id));
            }
        }
        assert(wf(new_sv));
        assert(same_except_versions_and_revisions(old_sv, new_sv));
    }
    Ok(v)
}

/// Releases a dataset version under a freshly drawn UUID; a draw
/// colliding with an existing version id is the only failure beyond a
/// missing frozen revision.
pub fn create_dataset_version(
    store: &mut MetaStore,
    dataset_id: &str,
    labels: Vec<Label>,
    metadata: Vec<Metadata>,
    version: Version,
    revision_ids: Vec<String>,
) -> (r: Result<DatasetVersion, ApiError>)
    requires
        wf(old(store)@),
    ensures
        wf(final(store)@),
        match r {
            Ok(v) => {
                &&& v@.dataset_id == dataset_id@
                &&& v@.object_group_ids == revision_ids.deep_view()
                &&& v@.object_count == revision_ids@.len()
                &&& v@.labels == labels.deep_view()
                &&& v@.metadata == metadata.deep_view()
                &&& v@.version == version
                &&& v@.status == Status::Available
                &&& !has_version(old(store)@, v@.id)
                &&& (forall|k: int|
                    0 <= k < revision_ids.deep_view().len() ==> has_revision(
                        old(store)@,
                        #[trigger] revision_ids.deep_view()[k],
                    ))
                &&& final(store)@.dataset_versions == old(store)@.dataset_versions.push(v@)
                &&& final(store)@.revisions.len() == old(store)@.revisions.len()
                &&& (forall|i: int|
                    0 <= i < old(store)@.revisions.len() ==> #[trigger] final(store)@.revisions[i]
                        == with_version_marked(
                        old(store)@.revisions[i],
                        revision_ids.deep_view(),
                        v@.id,
                    ))
                &&& same_except_versions_and_revisions(old(store)@, final(store)@)
            },
            Err(e) => {
                &&& *final(store) == *old(store)
                &&& (e.kind == ErrorKind::NotFound || e.kind == ErrorKind::Internal)
                &&& (e.kind == ErrorKind::NotFound <==> exists|k: int|
                    0 <= k < revision_ids.deep_view().len() && !has_revision(
                        old(store)@,
                        #[trigger] revision_ids.deep_view()[k],
                    ))
            },
        },
{
    let vid = new_uuid();
    create_dataset_version_with_id(store, vid, dataset_id, labels, metadata, version,
        revision_ids)
}

} // verus!
