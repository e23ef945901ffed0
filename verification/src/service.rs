//! The RPC surface: per method, authorize the caller against the resource,
//! dispatch to the handler, and hand the entity back.  No business rule
//! lives here; every method performs exactly one authorization before any
//! mutation.
//!
//! Each function takes the request metadata and, for bearer-token callers,
//! the userinfo identity resolved outside this crate (`oauth_user`).
//! A call without any credential fails unauthenticated before anything
//! else; reads demand the Read right, mutations the Write right.

use vstd::prelude::*;

use crate::apitoken::APIToken;
use crate::auth::{authorize, caller_authorized, request_user_id};
use crate::common::{Location, Resource, Right, Status};
use crate::dataset_model::DatasetEntry;
use crate::dataset_object_group::{DatasetObject, ObjectGroup, ObjectGroupRevision};
use crate::dataset_version::DatasetVersion;
use crate::error::{ApiError, ErrorKind};
use crate::project_model::ProjectEntry;
use crate::requests::{AddRevisionToObjectGroupRequest, AddUserToProjectRequest,
    CreateDatasetRequest, CreateObjectGroupRequest, CreateProjectRequest,
    GetObjectGroupRevisionRequest, ReleaseDatasetVersionRequest, RequestMetadata,
    RevisionReference};
use crate::store::{wf, MetaStore};

verus! {

/// Whether the request metadata carries no recognized credential.
pub open spec fn no_credentials(meta: RequestMetadata) -> bool {
    meta.access_token is None && meta.api_token is None
}

/// CreateProject: the caller becomes the project's only user.
pub fn create_project(
    store: &mut MetaStore,
    meta: &RequestMetadata,
    oauth_user: &Option<String>,
    req: CreateProjectRequest,
) -> (r: Result<ProjectEntry, ApiError>)
    requires
        wf(old(store)@),
    ensures
        wf(final(store)@),
        no_credentials(*meta) ==> (r matches Err(e) && e.kind == ErrorKind::Unauthenticated
            && *final(store) == *old(store)),
        r matches Err(e) ==> *final(store) == *old(store),
        r matches Ok(p) ==> final(store)@.projects == old(store)@.projects.push(p@) && p@.name
            == req.name@ && p@.description == req.description@ && p@.labels
            == req.labels.deep_view() && p@.metadata == req.metadata.deep_view()
            && crate::store::same_except_projects(old(store)@, final(store)@),
        meta.access_token is Some ==> (r matches Ok(p) ==> (oauth_user matches Some(u)
            && p@.users == crate::project_model::project_creator_users(u@))),
        meta.access_token is Some && oauth_user is Some ==> (r matches Err(e) ==> e.kind
            == ErrorKind::Internal),
        meta.access_token is Some && oauth_user is None ==> (r matches Err(eu) && eu.kind
            == ErrorKind::Unauthenticated && *final(store) == *old(store)),
        meta.access_token is None ==> (meta.api_token matches Some(t) ==> ((exists|i: int|
            0 <= i < old(store)@.api_tokens.len() && (#[trigger] old(store)@.api_tokens[i]).token
                == t@) ==> (r matches Err(e) ==> e.kind == ErrorKind::Internal))),
        meta.access_token is None ==> (meta.api_token matches Some(t2) ==> ((forall|i: int|
            0 <= i < old(store)@.api_tokens.len() ==> (#[trigger] old(store)@.api_tokens[i]).token
                != t2@) ==> (r matches Err(eu2) && eu2.kind == ErrorKind::Unauthenticated
            && *final(store) == *old(store)))),
{
    let user_id = match request_user_id(store, meta, oauth_user) {
        Ok(u) => u,
        Err(e) => {
            return Err(e);
        },
    };
    crate::create::create_project(
        store,
        req.name.as_str(),
        req.description.as_str(),
        req.labels,
        req.metadata,
        user_id.as_str(),
    )
}

/// AddUserToProject: grants the named user both rights on the project.
pub fn add_user_to_project(
    store: &mut MetaStore,
    meta: &RequestMetadata,
    oauth_user: &Option<String>,
    req: &AddUserToProjectRequest,
) -> (r: Result<(), ApiError>)
    requires
        wf(old(store)@),
    ensures
        wf(final(store)@),
        no_credentials(*meta) ==> (r matches Err(e) && e.kind == ErrorKind::Unauthenticated
            && *final(store) == *old(store)),
        caller_authorized(old(store)@, *meta, *oauth_user, Resource::Project, Right::Write,
            req.project_id@) ==> r is Ok,
        r matches Err(e) ==> *final(store) == *old(store),
        r matches Ok(_) ==> final(store)@.projects.len() == old(store)@.projects.len() && (forall|
            i: int,
        |
            0 <= i < old(store)@.projects.len() ==> #[trigger] final(store)@.projects[i]
                == if old(store)@.projects[i].id == req.project_id@ {
                crate::update::with_user_added(old(store)@.projects[i], req.user_id@)
            } else {
                old(store)@.projects[i]
            }),
{
    match authorize(store, meta, oauth_user, Resource::Project, Right::Write,
        req.project_id.as_str()) {
        Ok(_) => {},
        Err(e) => {
            return Err(e);
        },
    }
    crate::update::add_user_to_project(store, req.project_id.as_str(), req.user_id.as_str())
}

/// GetProjectDatasets: the datasets under the project, in store order.
pub fn get_project_datasets(
    store: &MetaStore,
    meta: &RequestMetadata,
    oauth_user: &Option<String>,
    id: &str,
) -> (r: Result<Vec<DatasetEntry>, ApiError>)
    requires
        wf(store@),
    ensures
        no_credentials(*meta) ==> (r matches Err(e) && e.kind == ErrorKind::Unauthenticated),
        caller_authorized(store@, *meta, *oauth_user, Resource::Project, Right::Read, id@)
            ==> r is Ok,
        r matches Ok(v) ==> v.deep_view() == crate::read::datasets_of_project(
            store@.datasets,
            id@,
        ),
{
    match authorize(store, meta, oauth_user, Resource::Project, Right::Read, id) {
        Ok(_) => {},
        Err(e) => {
            return Err(e);
        },
    }
    Ok(store.read_project_datasets(id))
}

/// GetUserProjects: every project that lists the caller.
pub fn get_user_projects(
    store: &MetaStore,
    meta: &RequestMetadata,
    oauth_user: &Option<String>,
) -> (r: Result<Vec<ProjectEntry>, ApiError>)
    ensures
        no_credentials(*meta) ==> (r matches Err(e) && e.kind == ErrorKind::Unauthenticated),
        meta.access_token is Some ==> (oauth_user matches Some(u) ==> (r matches Ok(v)
            && v.deep_view() == crate::read::user_projects(store@.projects, u@))),
        meta.access_token is None ==> (meta.api_token matches Some(t) ==> ((exists|i: int|
            0 <= i < store@.api_tokens.len() && (#[trigger] store@.api_tokens[i]).token == t@)
            ==> (r matches Ok(v2) && exists|i: int|
            0 <= i < store@.api_tokens.len() && (#[trigger] store@.api_tokens[i]).token == t@
                && v2.deep_view() == crate::read::user_projects(
                store@.projects,
                store@.api_tokens[i].user_id,
            )))),
{
    let user_id = match request_user_id(store, meta, oauth_user) {
        Ok(u) => u,
        Err(e) => {
            return Err(e);
        },
    };
    let out = store.read_user_projects(user_id.as_str());
    proof {
        assert(out.deep_view() == crate::read::user_projects(store@.projects, user_id@));
        if meta.access_token is None && meta.api_token is Some {
            let i = choose|i: int|
                0 <= i < store@.api_tokens.len() && (#[trigger] store@.api_tokens[i]).token
                    == meta.api_token->Some_0@ && store@.api_tokens[i].user_id == user_id@;
            assert(store@.api_tokens[i].token == meta.api_token->Some_0@);
        }
    }
    Ok(out)
}

/// CreateAPIToken: issues the caller a token with both rights on the
/// project.
pub fn create_api_token(
    store: &mut MetaStore,
    meta: &RequestMetadata,
    oauth_user: &Option<String>,
    project_id: &str,
) -> (r: Result<APIToken, ApiError>)
    requires
        wf(old(store)@),
    ensures
        wf(final(store)@),
        no_credentials(*meta) ==> (r matches Err(e) && e.kind == ErrorKind::Unauthenticated
            && *final(store) == *old(store)),
        r matches Err(e) ==> *final(store) == *old(store),
        r matches Ok(t) ==> final(store)@.api_tokens == old(store)@.api_tokens.push(t@)
            && t@.project_id == project_id@ && t@.rights =~= seq![Right::Read, Right::Write]
            && crate::store::same_except_tokens(old(store)@, final(store)@),
        caller_authorized(old(store)@, *meta, *oauth_user, Resource::Project, Right::Write,
            project_id@) ==> (r matches Err(e) ==> e.kind == ErrorKind::Internal),
        !caller_authorized(old(store)@, *meta, *oauth_user, Resource::Project, Right::Write,
            project_id@) ==> (r matches Err(ea) && crate::auth::auth_denial_kind(
            old(store)@,
            *meta,
            *oauth_user,
            Resource::Project,
            Right::Write,
            project_id@,
        ) == Some(ea.kind)),
{
    match authorize(store, meta, oauth_user, Resource::Project, Right::Write, project_id) {
        Ok(_) => {},
        Err(e) => {
            return Err(e);
        },
    }
    let user_id = match request_user_id(store, meta, oauth_user) {
        Ok(u) => u,
        Err(e) => {
            proof {
                if caller_authorized(old(store)@, *meta, *oauth_user, Resource::Project,
                    Right::Write, project_id@) {
                    if meta.access_token is Some {
                        assert(false);
                    } else {
                        let t = meta.api_token->Some_0;
                        let (i2, pid2) = choose|i2: int, pid2: Seq<char>|
                            #![trigger crate::auth::token_match_at(old(store)@.api_tokens, t@, i2), crate::auth::resolves_to(old(store)@, Resource::Project, project_id@, pid2)]
                            crate::auth::token_match_at(old(store)@.api_tokens, t@, i2)
                                && crate::auth::resolves_to(
                                old(store)@,
                                Resource::Project,
                                project_id@,
                                pid2,
                            ) && crate::auth::token_authorizes(
                                old(store)@.api_tokens[i2],
                                pid2,
                                Right::Write,
                            );
                        assert(old(store)@.api_tokens[i2].token == t@);
                        assert(false);
                    }
                }
            }
            return Err(e);
        },
    };
    let rights: Vec<Right> = vec![Right::Read, Right::Write];
    crate::create::create_api_token(store, user_id.as_str(), rights, project_id)
}

/// GetAPIToken: every token issued to the caller.
pub fn get_api_token(
    store: &MetaStore,
    meta: &RequestMetadata,
    oauth_user: &Option<String>,
) -> (r: Result<Vec<APIToken>, ApiError>)
    ensures
        no_credentials(*meta) ==> (r matches Err(e) && e.kind == ErrorKind::Unauthenticated),
        meta.access_token is Some ==> (oauth_user matches Some(u) ==> (r matches Ok(v)
            && v.deep_view() == crate::read::tokens_of_user(store@.api_tokens, u@))),
        meta.access_token is None ==> (meta.api_token matches Some(t) ==> ((exists|i: int|
            0 <= i < store@.api_tokens.len() && (#[trigger] store@.api_tokens[i]).token == t@)
            ==> (r matches Ok(v2) && exists|i: int|
            0 <= i < store@.api_tokens.len() && (#[trigger] store@.api_tokens[i]).token == t@
                && v2.deep_view() == crate::read::tokens_of_user(
                store@.api_tokens,
                store@.api_tokens[i].user_id,
            )))),
{
    let user_id = match request_user_id(store, meta, oauth_user) {
        Ok(u) => u,
        Err(e) => {
            return Err(e);
        },
    };
    let out = store.read_user_api_tokens(user_id.as_str());
    proof {
        assert(out.deep_view() == crate::read::tokens_of_user(store@.api_tokens, user_id@));
        if meta.access_token is None && meta.api_token is Some {
            let i = choose|i: int|
                0 <= i < store@.api_tokens.len() && (#[trigger] store@.api_tokens[i]).token
                    == meta.api_token->Some_0@ && store@.api_tokens[i].user_id == user_id@;
            assert(store@.api_tokens[i].token == meta.api_token->Some_0@);
        }
    }
    Ok(out)
}

/// DeleteProject is reserved.
pub fn delete_project(store: &MetaStore, _meta: &RequestMetadata, _id: &str) -> (r: Result<
    (),
    ApiError,
>)
    ensures
        r matches Err(e) && e.kind == ErrorKind::Unimplemented,
{
    Err(ApiError::new(ErrorKind::Unimplemented, "not implemented"))
}

/// GetProject is reserved.
pub fn get_project(store: &MetaStore, _meta: &RequestMetadata, _id: &str) -> (r: Result<
    ProjectEntry,
    ApiError,
>)
    ensures
        r matches Err(e) && e.kind == ErrorKind::Unimplemented,
{
    Err(ApiError::new(ErrorKind::Unimplemented, "not implemented"))
}

/// DeleteAPIToken is reserved.
pub fn delete_api_token(
    store: &MetaStore,
    meta: &RequestMetadata,
    oauth_user: &Option<String>,
    id: &str,
) -> (r: Result<(), ApiError>)
    requires
        wf(store@),
    ensures
        no_credentials(*meta) ==> (r matches Err(e) && e.kind == ErrorKind::Unauthenticated),
        r is Err,
{
    match authorize(store, meta, oauth_user, Resource::Project, Right::Write, id) {
        Ok(_) => {},
        Err(e) => {
            return Err(e);
        },
    }
    Err(ApiError::new(ErrorKind::Unimplemented, "not implemented"))
}

/// CreateDataset under a project the caller can write.
pub fn create_dataset(
    store: &mut MetaStore,
    meta: &RequestMetadata,
    oauth_user: &Option<String>,
    req: CreateDatasetRequest,
) -> (r: Result<DatasetEntry, ApiError>)
    requires
        wf(old(store)@),
    ensures
        wf(final(store)@),
        no_credentials(*meta) ==> (r matches Err(e) && e.kind == ErrorKind::Unauthenticated
            && *final(store) == *old(store)),
        r matches Err(e) ==> *final(store) == *old(store),
        r matches Ok(d) ==> final(store)@.datasets == old(store)@.datasets.push(d@) && d@.name
            == req.name@ && d@.project_id == req.project_id@ && d@.labels
            == req.labels.deep_view() && d@.metadata == req.metadata.deep_view()
            && crate::store::same_except_datasets(old(store)@, final(store)@),
        caller_authorized(old(store)@, *meta, *oauth_user, Resource::Project, Right::Write,
            req.project_id@) ==> (r matches Err(e) ==> e.kind == ErrorKind::Internal),
        !caller_authorized(old(store)@, *meta, *oauth_user, Resource::Project, Right::Write,
            req.project_id@) ==> (r matches Err(ea) && crate::auth::auth_denial_kind(
            old(store)@,
            *meta,
            *oauth_user,
            Resource::Project,
            Right::Write,
            req.project_id@,
        ) == Some(ea.kind)),
{
    match authorize(store, meta, oauth_user, Resource::Project, Right::Write,
        req.project_id.as_str()) {
        Ok(_) => {},
        Err(e) => {
            return Err(e);
        },
    }
    crate::create::create_dataset(
        store,
        req.name.as_str(),
        req.project_id.as_str(),
        req.labels,
        req.metadata,
    )
}

/// GetDataset by id.
pub fn get_dataset(
    store: &MetaStore,
    meta: &RequestMetadata,
    oauth_user: &Option<String>,
    id: &str,
) -> (r: Result<DatasetEntry, ApiError>)
    requires
        wf(store@),
    ensures
        no_credentials(*meta) ==> (r matches Err(e) && e.kind == ErrorKind::Unauthenticated),
        caller_authorized(store@, *meta, *oauth_user, Resource::Dataset, Right::Read, id@)
            ==> r is Ok,
        r matches Ok(d) ==> d@.id == id@ && store@.datasets.contains(d@),
{
    match authorize(store, meta, oauth_user, Resource::Dataset, Right::Read, id) {
        Ok(_) => {},
        Err(e) => {
            return Err(e);
        },
    }
    let r = store.read_dataset(id);
    proof {
        if r is Err {
            assert(!crate::store::has_dataset(store@, id@));
            assert(!(exists|pid: Seq<char>|
                crate::auth::resolves_to(store@, Resource::Dataset, id@, pid)));
        }
    }
    r
}

/// GetDatasetVersions: the released versions of the dataset.
pub fn get_dataset_versions(
    store: &MetaStore,
    meta: &RequestMetadata,
    oauth_user: &Option<String>,
    id: &str,
) -> (r: Result<Vec<DatasetVersion>, ApiError>)
    requires
        wf(store@),
    ensures
        no_credentials(*meta) ==> (r matches Err(e) && e.kind == ErrorKind::Unauthenticated),
        caller_authorized(store@, *meta, *oauth_user, Resource::Dataset, Right::Read, id@)
            ==> r is Ok,
        r matches Ok(v) ==> v.deep_view() == crate::read::versions_of_dataset(
            store@.dataset_versions,
            id@,
        ),
{
    match authorize(store, meta, oauth_user, Resource::Dataset, Right::Read, id) {
        Ok(_) => {},
        Err(e) => {
            return Err(e);
        },
    }
    Ok(store.read_dataset_versions(id))
}

/// GetDatasetObjectGroups: the object groups of the dataset.
pub fn get_dataset_object_groups(
    store: &MetaStore,
    meta: &RequestMetadata,
    oauth_user: &Option<String>,
    id: &str,
) -> (r: Result<Vec<ObjectGroup>, ApiError>)
    requires
        wf(store@),
    ensures
        no_credentials(*meta) ==> (r matches Err(e) && e.kind == ErrorKind::Unauthenticated),
        caller_authorized(store@, *meta, *oauth_user, Resource::Dataset, Right::Read, id@)
            ==> r is Ok,
        r matches Ok(v) ==> v.deep_view() == crate::read::groups_of_dataset(
            store@.object_groups,
            id@,
        ),
{
    match authorize(store, meta, oauth_user, Resource::Dataset, Right::Read, id) {
        Ok(_) => {},
        Err(e) => {
            return Err(e);
        },
    }
    Ok(store.read_dataset_object_groups(id))
}

/// ReleaseDatasetVersion: freezes the listed revisions into a new
/// version.  The caller must hold Write on the dataset and on every
/// listed revision.
#[verifier::loop_isolation(false)]
pub fn release_dataset_version(
    store: &mut MetaStore,
    meta: &RequestMetadata,
    oauth_user: &Option<String>,
    req: ReleaseDatasetVersionRequest,
) -> (r: Result<DatasetVersion, ApiError>)
    requires
        wf(old(store)@),
    ensures
        wf(final(store)@),
        no_credentials(*meta) ==> (r matches Err(e) && e.kind == ErrorKind::Unauthenticated
            && *final(store) == *old(store)),
        !caller_authorized(old(store)@, *meta, *oauth_user, Resource::Dataset, Right::Write,
            req.dataset_id@) ==> (r matches Err(ea) && crate::auth::auth_denial_kind(
            old(store)@,
            *meta,
            *oauth_user,
            Resource::Dataset,
            Right::Write,
            req.dataset_id@,
        ) == Some(ea.kind)),
        caller_authorized(old(store)@, *meta, *oauth_user, Resource::Dataset, Right::Write,
            req.dataset_id@) && req.version is None ==> (r matches Err(e) && e.kind
            == ErrorKind::InvalidArgument),
        caller_authorized(old(store)@, *meta, *oauth_user, Resource::Dataset, Right::Write,
            req.dataset_id@) && req.version is Some && (forall|k: int|
            0 <= k < req.revision_ids.deep_view().len() ==> caller_authorized(
                old(store)@,
                *meta,
                *oauth_user,
                Resource::ObjectGroupRevision,
                Right::Write,
                #[trigger] req.revision_ids.deep_view()[k],
            )) && req.revision_ids@.len() <= i64::MAX ==> (r matches Err(e) ==> e.kind
            == ErrorKind::Internal),
        r matches Err(e) ==> *final(store) == *old(store),
        r matches Ok(v) ==> {
            &&& v@.dataset_id == req.dataset_id@
            &&& v@.object_group_ids == req.revision_ids.deep_view()
            &&& final(store)@.dataset_versions == old(store)@.dataset_versions.push(v@)
            &&& final(store)@.revisions.len() == old(store)@.revisions.len()
            &&& (forall|i: int|
                0 <= i < old(store)@.revisions.len() ==> #[trigger] final(store)@.revisions[i]
                    == crate::create::with_version_marked(
                    old(store)@.revisions[i],
                    req.revision_ids.deep_view(),
                    v@.id,
                ))
            &&& crate::store::same_except_versions_and_revisions(old(store)@, final(store)@)
        },
{
    match authorize(store, meta, oauth_user, Resource::Dataset, Right::Write,
        req.dataset_id.as_str()) {
        Ok(_) => {},
        Err(e) => {
            return Err(e);
        },
    }
    let version = match req.version {
        Some(v) => v,
        None => {
            return Err(ApiError::new(ErrorKind::InvalidArgument, "field version required"));
        },
    };
    let mut k: usize = 0;
    while k < req.revision_ids.len()
        invariant
            wf(store@),
            k <= req.revision_ids@.len(),
        decreases req.revision_ids@.len() - k,
    {
        match authorize(store, meta, oauth_user, Resource::ObjectGroupRevision, Right::Write,
            req.revision_ids[k].as_str()) {
            Ok(_) => {},
            Err(e) => {
                proof {
                    assert(req.revision_ids.deep_view()[k as int] == req.revision_ids@[
                        k as int
                    ]@);
                    if caller_authorized(old(store)@, *meta, *oauth_user,
                        Resource::ObjectGroupRevision, Right::Write, req.revision_ids.deep_view()[
                        k as int
                    ]) {
                        assert(false);
                    }
                }
                return Err(e);
            },
        }
        k = k + 1;
    }
    let r = crate::create::create_dataset_version(
        store,
        req.dataset_id.as_str(),
        req.labels,
        req.metadata,
        version,
        req.revision_ids,
    );
    proof {
        if r matches Err(ref e) && e.kind == ErrorKind::NotFound {
            let missing = choose|m: int|
                0 <= m < req.revision_ids.deep_view().len() && !crate::store::has_revision(
                    old(store)@,
                    #[trigger] req.revision_ids.deep_view()[m],
                );
            if caller_authorized(old(store)@, *meta, *oauth_user, Resource::ObjectGroupRevision,
                Right::Write, req.revision_ids.deep_view()[missing]) {
                if meta.access_token is Some {
                    let u = oauth_user->Some_0;
                    let pid2 = choose|pid2: Seq<char>|
                        #[trigger] crate::auth::resolves_to(
                            old(store)@,
                            Resource::ObjectGroupRevision,
                            req.revision_ids.deep_view()[missing],
                            pid2,
                        ) && crate::auth::oauth_authorized(old(store)@, pid2, u@, Right::Write);
                    assert(crate::store::has_revision(
                        old(store)@,
                        req.revision_ids.deep_view()[missing],
                    ));
                } else {
                    let t = meta.api_token->Some_0;
                    let (i2, pid2) = choose|i2: int, pid2: Seq<char>|
                        #![trigger crate::auth::token_match_at(old(store)@.api_tokens, t@, i2), crate::auth::resolves_to(old(store)@, Resource::ObjectGroupRevision, req.revision_ids.deep_view()[missing], pid2)]
                        crate::auth::token_match_at(old(store)@.api_tokens, t@, i2)
                            && crate::auth::resolves_to(
                            old(store)@,
                            Resource::ObjectGroupRevision,
                            req.revision_ids.deep_view()[missing],
                            pid2,
                        ) && crate::auth::token_authorizes(
                            old(store)@.api_tokens[i2],
                            pid2,
                            Right::Write,
                        );
                    assert(crate::store::has_revision(
                        old(store)@,
                        req.revision_ids.deep_view()[missing],
                    ));
                }
            }
        }
    }
    r
}

/// GetDatasetVersion by id.
pub fn get_dataset_version(
    store: &MetaStore,
    meta: &RequestMetadata,
    oauth_user: &Option<String>,
    id: &str,
) -> (r: Result<DatasetVersion, ApiError>)
    requires
        wf(store@),
    ensures
        no_credentials(*meta) ==> (r matches Err(e) && e.kind == ErrorKind::Unauthenticated),
        caller_authorized(store@, *meta, *oauth_user, Resource::DatasetVersion, Right::Read, id@)
            ==> r is Ok,
        r matches Ok(v) ==> v@.id == id@ && store@.dataset_versions.contains(v@),
{
    match authorize(store, meta, oauth_user, Resource::DatasetVersion, Right::Read, id) {
        Ok(_) => {},
        Err(e) => {
            return Err(e);
        },
    }
    let r = store.read_dataset_version(id);
    proof {
        if r is Err {
            assert(!crate::store::has_version(store@, id@));
            assert(!(exists|pid: Seq<char>|
                crate::auth::resolves_to(store@, Resource::DatasetVersion, id@, pid)));
        }
    }
    r
}

/// DeleteDataset: the full cascade; the returned locations are the
/// removed objects' payloads to delete from the object store.
pub fn delete_dataset(
    store: &mut MetaStore,
    meta: &RequestMetadata,
    oauth_user: &Option<String>,
    id: &str,
) -> (r: Result<Vec<Location>, ApiError>)
    requires
        wf(old(store)@),
    ensures
        wf(final(store)@),
        no_credentials(*meta) ==> (r matches Err(e) && e.kind == ErrorKind::Unauthenticated
            && *final(store) == *old(store)),
        caller_authorized(old(store)@, *meta, *oauth_user, Resource::Dataset, Right::Write, id@)
            && !(exists|r2: int, k2: int|
            #![trigger old(store)@.revisions[r2].dataset_versions[k2]]
            0 <= r2 < old(store)@.revisions.len() && old(store)@.revisions[r2].dataset_id == id@
                && 0 <= k2 < old(store)@.revisions[r2].dataset_versions.len()
                && !crate::delete::removed_version_ids(old(store)@.dataset_versions, id@).contains(
                old(store)@.revisions[r2].dataset_versions[k2],
            )) ==> r is Ok,
        r matches Err(e) ==> *final(store) == *old(store),
        r matches Ok(_) ==> {
            &&& crate::store::has_dataset(old(store)@, id@)
            &&& final(store)@.datasets == old(store)@.datasets.filter(crate::delete::other_dataset(
                id@,
            ))
            &&& final(store)@.dataset_versions == old(store)@.dataset_versions.filter(
                crate::delete::other_dataset_version(id@),
            )
            &&& final(store)@.object_groups == old(store)@.object_groups.filter(
                crate::delete::other_dataset_group(id@),
            )
            &&& !crate::store::has_dataset(final(store)@, id@)
        },
{
    match authorize(store, meta, oauth_user, Resource::Dataset, Right::Write, id) {
        Ok(_) => {},
        Err(e) => {
            return Err(e);
        },
    }
    let r = crate::delete::delete_dataset(store, id);
    proof {
        if r is Err {
            assert(!(exists|pid: Seq<char>|
                crate::auth::resolves_to(old(store)@, Resource::Dataset, id@, pid))
                || (exists|r2: int, k2: int|
                #![trigger old(store)@.revisions[r2].dataset_versions[k2]]
                0 <= r2 < old(store)@.revisions.len() && old(store)@.revisions[r2].dataset_id
                    == id@ && 0 <= k2 < old(store)@.revisions[r2].dataset_versions.len()
                    && !crate::delete::removed_version_ids(
                    old(store)@.dataset_versions,
                    id@,
                ).contains(old(store)@.revisions[r2].dataset_versions[k2])));
        }
        if r is Ok {
            let f = store@.datasets;
            if crate::store::has_dataset(store@, id@) {
                let i = choose|i: int| 0 <= i < f.len() && (#[trigger] f[i]).id == id@;
                crate::read::lemma_filter_sub(
                    old(store)@.datasets,
                    crate::delete::other_dataset(id@),
                );
                assert(old(store)@.datasets.contains(f[i]));
                old(store)@.datasets.lemma_filter_pred(crate::delete::other_dataset(id@), i);
                assert(false);
            }
        }
    }
    r
}

/// DeleteDatasetVersion: removes the version and unfreezes its revisions.
pub fn delete_dataset_version(
    store: &mut MetaStore,
    meta: &RequestMetadata,
    oauth_user: &Option<String>,
    id: &str,
) -> (r: Result<(), ApiError>)
    requires
        wf(old(store)@),
    ensures
        wf(final(store)@),
        no_credentials(*meta) ==> (r matches Err(e) && e.kind == ErrorKind::Unauthenticated
            && *final(store) == *old(store)),
        caller_authorized(old(store)@, *meta, *oauth_user, Resource::DatasetVersion,
            Right::Write, id@) ==> r is Ok,
        r matches Err(e) ==> *final(store) == *old(store),
        r matches Ok(_) ==> {
            &&& final(store)@.revisions.len() == old(store)@.revisions.len()
            &&& (forall|i: int|
                0 <= i < old(store)@.revisions.len() ==> #[trigger] final(store)@.revisions[i]
                    == crate::delete::with_version_pulled(old(store)@.revisions[i], id@))
            &&& crate::store::same_except_versions_and_revisions(old(store)@, final(store)@)
        },
{
    match authorize(store, meta, oauth_user, Resource::DatasetVersion, Right::Write, id) {
        Ok(_) => {},
        Err(e) => {
            return Err(e);
        },
    }
    let r = crate::delete::delete_dataset_version(store, id);
    proof {
        if r is Err {
            assert(!(exists|pid: Seq<char>|
                crate::auth::resolves_to(old(store)@, Resource::DatasetVersion, id@, pid)));
        }
    }
    r
}

/// UpdateDatasetField is reserved.
pub fn update_dataset_field(store: &MetaStore, _meta: &RequestMetadata) -> (r: Result<
    (),
    ApiError,
>)
    ensures
        r matches Err(e) && e.kind == ErrorKind::Unimplemented,
{
    Err(ApiError::new(ErrorKind::Unimplemented, "not implemented"))
}

/// GetCurrentObjectGroupRevisions is reserved.
pub fn get_current_object_group_revisions(store: &MetaStore, _meta: &RequestMetadata) -> (r:
    Result<Vec<ObjectGroupRevision>, ApiError>)
    ensures
        r matches Err(e) && e.kind == ErrorKind::Unimplemented,
{
    Err(ApiError::new(ErrorKind::Unimplemented, "not implemented"))
}

/// GetDatasetVersionRevisions is reserved.
pub fn get_dataset_version_revisions(
    store: &MetaStore,
    meta: &RequestMetadata,
    oauth_user: &Option<String>,
    id: &str,
) -> (r: Result<Vec<ObjectGroupRevision>, ApiError>)
    requires
        wf(store@),
    ensures
        no_credentials(*meta) ==> (r matches Err(e) && e.kind == ErrorKind::Unauthenticated),
        r is Err,
{
    match authorize(store, meta, oauth_user, Resource::DatasetVersion, Right::Write, id) {
        Ok(_) => {},
        Err(e) => {
            return Err(e);
        },
    }
    Err(ApiError::new(ErrorKind::Unimplemented, "not implemented"))
}

/// CreateObjectGroup, optionally with its first revision; the group's
/// objects live under `bucket`.  Exactly one authorization precedes any
/// mutation; a fresh group starts with counter zero and `Initializing`;
/// and the call is atomic: if the first revision cannot be created, the
/// group insertion is undone and the store is left untouched.
pub fn create_object_group(
    store: &mut MetaStore,
    meta: &RequestMetadata,
    oauth_user: &Option<String>,
    req: CreateObjectGroupRequest,
    bucket: &str,
) -> (r: Result<(ObjectGroup, Option<ObjectGroupRevision>), ApiError>)
    requires
        wf(old(store)@),
    ensures
        wf(final(store)@),
        no_credentials(*meta) ==> (r matches Err(e) && e.kind == ErrorKind::Unauthenticated),
        !caller_authorized(old(store)@, *meta, *oauth_user, Resource::Dataset, Right::Write,
            req.dataset_id@) ==> (r matches Err(ea) && crate::auth::auth_denial_kind(
            old(store)@,
            *meta,
            *oauth_user,
            Resource::Dataset,
            Right::Write,
            req.dataset_id@,
        ) == Some(ea.kind)),
        caller_authorized(old(store)@, *meta, *oauth_user, Resource::Dataset, Right::Write,
            req.dataset_id@) ==> (r matches Err(e) ==> e.kind == ErrorKind::Internal),
        r matches Err(e2) ==> final(store)@ == old(store)@,
        r matches Ok(p) ==> {
            &&& !crate::store::has_group(old(store)@, p.0@.id)
            &&& p.0@.name == req.name@
            &&& p.0@.dataset_id == req.dataset_id@
            &&& p.0@.labels == req.labels.deep_view()
            &&& p.0@.metadata == req.metadata.deep_view()
            &&& p.0@.status == Status::Initializing
            &&& final(store)@.object_groups == old(store)@.object_groups.push(p.0@)
            &&& crate::store::same_except_groups_and_revisions(old(store)@, final(store)@)
            &&& crate::store::has_group(final(store)@, p.0@.id)
            &&& (req.object_group_revision is Some <==> p.1 is Some)
            &&& (p.1 is None ==> p.0@.revision_counter == 0 && p.0@.head_id
                == Seq::<char>::empty() && final(store)@.revisions == old(store)@.revisions)
            &&& (p.1 matches Some(rev) ==> {
                &&& p.0@.revision_counter == 1
                &&& p.0@.head_id == rev@.id
                &&& rev@.object_group_id == p.0@.id
                &&& rev@.dataset_id == req.dataset_id@
                &&& rev@.revision == 0
                &&& rev@.status == Status::Initializing
                &&& rev@.dataset_versions == Seq::<Seq<char>>::empty()
                &&& final(store)@.revisions == old(store)@.revisions.push(rev@)
                &&& (req.object_group_revision matches Some(rr) ==> rev@.objects.len()
                    == rr.objects@.len() && rev@.objects_count == rr.objects@.len() && (forall|
                    i: int,
                |
                    0 <= i < rev@.objects.len() ==> crate::create::object_matches_request(
                        #[trigger] rev@.objects[i],
                        rr.objects.deep_view()[i],
                        req.dataset_id@,
                        bucket@,
                    )))
            })
        },
{
    match authorize(store, meta, oauth_user, Resource::Dataset, Right::Write,
        req.dataset_id.as_str()) {
        Ok(_) => {},
        Err(e) => {
            return Err(e);
        },
    }
    let group = match crate::create::create_object_group(
        store,
        req.name.as_str(),
        req.dataset_id.as_str(),
        req.labels,
        req.metadata,
    ) {
        Ok(g) => g,
        Err(e) => {
            return Err(e);
        },
    };
    match req.object_group_revision {
        None => {
            proof {
                let n = store@.object_groups.len() - 1;
                assert(store@.object_groups[n] == group@);
                assert(crate::store::has_group(store@, group@.id));
            }
            Ok((group, None))
        },
        Some(rev_req) => {
            let ghost mid_sv = store@;
            let ghost mid_groups = store.object_groups@;
            match crate::create::create_revision_for_group(
                store,
                group.id.as_str(),
                rev_req.objects,
                rev_req.labels,
                rev_req.metadata,
                bucket,
            ) {
                Ok((group2, rev)) => {
                    proof {
                        let gi = choose|gi: int|
                            0 <= gi < mid_sv.object_groups.len()
                                && (#[trigger] mid_sv.object_groups[gi]).id == group@.id
                                && mid_sv.object_groups[gi].revision_counter == rev@.revision
                                && group2@ == crate::create::advanced_group(
                                mid_sv.object_groups[gi],
                                rev@.id,
                            ) && store@.object_groups == mid_sv.object_groups.update(gi, group2@);
                        assert(store@.object_groups[gi] == group2@);
                        assert(crate::store::has_group(store@, group2@.id));
                        if gi < mid_sv.object_groups.len() - 1 {
                            assert(mid_sv.object_groups[gi] == old(store)@.object_groups[gi]);
                            assert(crate::store::has_group(old(store)@, group@.id));
                            assert(false);
                        }
                        assert(mid_sv.object_groups[gi] == group@);
                        assert(rev@.revision == 0);
                        assert(store@.object_groups =~= old(store)@.object_groups.push(group2@));
                        assert(req.object_group_revision == Option::Some(rev_req));
                    }
                    Ok((group2, Some(rev)))
                },
                Err(e) => {
                    // the first revision could not be created: undo the
                    // group insertion so the call leaves no partial state
                    let n = store.object_groups.len();
                    store.object_groups.remove(n - 1);
                    proof {
                        assert(mid_sv.object_groups[mid_sv.object_groups.len() - 1] == group@);
                        assert(crate::store::has_group(mid_sv, group@.id));
                        assert(store.object_groups@ == mid_groups.remove(n - 1));
                        assert forall|j: int|
                            0 <= j < store@.object_groups.len()
                            implies #[trigger] store@.object_groups[j]
                            == old(store)@.object_groups[j] by {
                            assert(store.object_groups@[j] == mid_groups[j]);
                            assert(store@.object_groups[j] == mid_sv.object_groups[j]);
                            assert(mid_sv.object_groups[j] == old(store)@.object_groups[j]);
                        }
                        assert(store@.object_groups =~= old(store)@.object_groups);
                        assert(store@.projects == old(store)@.projects);
                        assert(store@.datasets == old(store)@.datasets);
                        assert(store@.revisions == old(store)@.revisions);
                        assert(store@.dataset_versions == old(store)@.dataset_versions);
                        assert(store@.api_tokens == old(store)@.api_tokens);
                        assert(store@ == old(store)@);
                    }
                    Err(e)
                },
            }
        },
    }
}

/// AddRevisionToObjectGroup: appends one revision; the revision request
/// is required.
pub fn add_revision_to_object_group(
    store: &mut MetaStore,
    meta: &RequestMetadata,
    oauth_user: &Option<String>,
    req: AddRevisionToObjectGroupRequest,
    bucket: &str,
) -> (r: Result<ObjectGroupRevision, ApiError>)
    requires
        wf(old(store)@),
    ensures
        wf(final(store)@),
        no_credentials(*meta) ==> (r matches Err(e) && e.kind == ErrorKind::Unauthenticated
            && *final(store) == *old(store)),
        !caller_authorized(old(store)@, *meta, *oauth_user, Resource::ObjectGroup, Right::Write,
            req.object_group_id@) ==> (r matches Err(ea) && crate::auth::auth_denial_kind(
            old(store)@,
            *meta,
            *oauth_user,
            Resource::ObjectGroup,
            Right::Write,
            req.object_group_id@,
        ) == Some(ea.kind)),
        caller_authorized(old(store)@, *meta, *oauth_user, Resource::ObjectGroup, Right::Write,
            req.object_group_id@) ==> ((req.group_revision is None ==> (r matches Err(e)
            && e.kind == ErrorKind::InvalidArgument)) && (req.group_revision is Some ==> (
        r matches Err(e2) ==> e2.kind == ErrorKind::Internal))),
        r matches Err(e3) ==> *final(store) == *old(store),
        r matches Ok(rev) ==> {
            &&& rev@.object_group_id == req.object_group_id@
            &&& final(store)@.revisions == old(store)@.revisions.push(rev@)
            &&& crate::store::same_except_groups_and_revisions(old(store)@, final(store)@)
            &&& rev@.revision >= 0
            &&& rev@.status == Status::Initializing
            &&& rev@.dataset_versions == Seq::<Seq<char>>::empty()
            &&& (req.group_revision matches Some(rr) ==> rev@.objects.len() == rr.objects@.len()
                && rev@.objects_count == rr.objects@.len() && (forall|i: int|
                0 <= i < rev@.objects.len() ==> crate::create::object_matches_request(
                    #[trigger] rev@.objects[i],
                    rr.objects.deep_view()[i],
                    rev@.dataset_id,
                    bucket@,
                )))
            &&& (exists|gi: int|
                0 <= gi < old(store)@.object_groups.len()
                    && (#[trigger] old(store)@.object_groups[gi]).id == req.object_group_id@
                    && old(store)@.object_groups[gi].revision_counter == rev@.revision
                    && rev@.dataset_id == old(store)@.object_groups[gi].dataset_id
                    && final(store)@.object_groups == old(store)@.object_groups.update(
                    gi,
                    crate::create::advanced_group(old(store)@.object_groups[gi], rev@.id),
                ))
        },
{
    match authorize(store, meta, oauth_user, Resource::ObjectGroup, Right::Write,
        req.object_group_id.as_str()) {
        Ok(_) => {},
        Err(e) => {
            return Err(e);
        },
    }
    let rev_req = match req.group_revision {
        Some(rr) => rr,
        None => {
            return Err(ApiError::new(ErrorKind::InvalidArgument, "field group_revision required"));
        },
    };
    let r0 = crate::create::create_revision_for_group(
        store,
        req.object_group_id.as_str(),
        rev_req.objects,
        rev_req.labels,
        rev_req.metadata,
        bucket,
    );
    proof {
        if r0 matches Err(ref e) && e.kind == ErrorKind::NotFound {
            assert(!crate::store::has_group(old(store)@, req.object_group_id@));
            assert(!(exists|pid: Seq<char>|
                crate::auth::resolves_to(
                    old(store)@,
                    Resource::ObjectGroup,
                    req.object_group_id@,
                    pid,
                )));
        }
    }
    match r0 {
        Ok((g2, rev)) => {
            proof {
                let gi = choose|gi: int|
                    0 <= gi < old(store)@.object_groups.len()
                        && (#[trigger] old(store)@.object_groups[gi]).id == req.object_group_id@
                        && old(store)@.object_groups[gi].revision_counter == rev@.revision
                        && g2@ == crate::create::advanced_group(
                        old(store)@.object_groups[gi],
                        rev@.id,
                    ) && store@.object_groups == old(store)@.object_groups.update(gi, g2@);
                assert(store@.object_groups == old(store)@.object_groups.update(
                    gi,
                    crate::create::advanced_group(old(store)@.object_groups[gi], rev@.id),
                ));
            }
            Ok(rev)
        },
        Err(e) => Err(e),
    }
}

/// GetObjectGroup by id.
pub fn get_object_group(
    store: &MetaStore,
    meta: &RequestMetadata,
    oauth_user: &Option<String>,
    id: &str,
) -> (r: Result<ObjectGroup, ApiError>)
    requires
        wf(store@),
    ensures
        no_credentials(*meta) ==> (r matches Err(e) && e.kind == ErrorKind::Unauthenticated),
        caller_authorized(store@, *meta, *oauth_user, Resource::ObjectGroup, Right::Read, id@)
            ==> r is Ok,
        r matches Ok(g) ==> g@.id == id@ && store@.object_groups.contains(g@),
{
    match authorize(store, meta, oauth_user, Resource::ObjectGroup, Right::Read, id) {
        Ok(_) => {},
        Err(e) => {
            return Err(e);
        },
    }
    let r = store.read_object_group(id);
    proof {
        if r is Err {
            assert(!crate::store::has_group(store@, id@));
            assert(!(exists|pid: Seq<char>|
                crate::auth::resolves_to(store@, Resource::ObjectGroup, id@, pid)));
        }
    }
    r
}

/// GetObjectGroupRevision, by id or by revision number; the version tag
/// reference is reserved.  A lookup by number is authorized against the
/// owning object group, a lookup by id against the revision itself; in
/// both cases authorization comes before the read.
pub fn get_object_group_revision(
    store: &MetaStore,
    meta: &RequestMetadata,
    oauth_user: &Option<String>,
    req: &GetObjectGroupRevisionRequest,
) -> (r: Result<ObjectGroupRevision, ApiError>)
    requires
        wf(store@),
    ensures
        no_credentials(*meta) ==> (r matches Err(e) && e.kind == ErrorKind::Unauthenticated),
        req.reference_type == RevisionReference::Version && !no_credentials(*meta) ==> (
        r matches Err(e) && e.kind == ErrorKind::Unimplemented),
        req.reference_type == RevisionReference::Id && caller_authorized(
            store@,
            *meta,
            *oauth_user,
            Resource::ObjectGroupRevision,
            Right::Read,
            req.id@,
        ) ==> r is Ok,
        req.reference_type == RevisionReference::Revision && caller_authorized(
            store@,
            *meta,
            *oauth_user,
            Resource::ObjectGroup,
            Right::Read,
            req.object_group_id@,
        ) && (exists|i: int|
            0 <= i < store@.revisions.len() && (#[trigger] store@.revisions[i]).object_group_id
                == req.object_group_id@ && store@.revisions[i].revision == req.revision)
            ==> r is Ok,
        r matches Ok(rev) ==> store@.revisions.contains(rev@) && (req.reference_type
            == RevisionReference::Id ==> rev@.id == req.id@) && (req.reference_type
            == RevisionReference::Revision ==> rev@.object_group_id == req.object_group_id@
            && rev@.revision == req.revision),
{
    if meta.access_token.is_none() && meta.api_token.is_none() {
        return Err(
            ApiError::new(
                ErrorKind::Unauthenticated,
                "could not find authentication token, please provide a token in metadata",
            ),
        );
    }
    match req.reference_type {
        RevisionReference::Version => Err(
            ApiError::new(
                ErrorKind::Unimplemented,
                "version revision type currently not implemented",
            ),
        ),
        RevisionReference::Revision => {
            match authorize(store, meta, oauth_user, Resource::ObjectGroup, Right::Read,
                req.object_group_id.as_str()) {
                Ok(_) => {},
                Err(e) => {
                    return Err(e);
                },
            }
            store.read_revision_by_number(req.object_group_id.as_str(), req.revision)
        },
        RevisionReference::Id => {
            match authorize(store, meta, oauth_user, Resource::ObjectGroupRevision, Right::Read,
                req.id.as_str()) {
                Ok(_) => {},
                Err(e) => {
                    return Err(e);
                },
            }
            let r = store.read_revision(req.id.as_str());
            proof {
                if r is Err {
                    assert(!(exists|pid: Seq<char>|
                        crate::auth::resolves_to(
                            store@,
                            Resource::ObjectGroupRevision,
                            req.id@,
                            pid,
                        )));
                }
            }
            r
        },
    }
}

/// GetObjectGroupRevisions: the group's revisions in increasing revision
/// order.
pub fn get_object_group_revisions(
    store: &MetaStore,
    meta: &RequestMetadata,
    oauth_user: &Option<String>,
    id: &str,
) -> (r: Result<Vec<ObjectGroupRevision>, ApiError>)
    requires
        wf(store@),
    ensures
        no_credentials(*meta) ==> (r matches Err(e) && e.kind == ErrorKind::Unauthenticated),
        caller_authorized(store@, *meta, *oauth_user, Resource::ObjectGroup, Right::Read, id@)
            ==> r is Ok,
        r matches Ok(v) ==> v.deep_view() == crate::read::revisions_of_group(
            store@.revisions,
            id@,
        ) && (forall|a: int, b: int|
            0 <= a < b < v.deep_view().len() ==> (#[trigger] v.deep_view()[a]).revision
                < (#[trigger] v.deep_view()[b]).revision),
{
    match authorize(store, meta, oauth_user, Resource::ObjectGroup, Right::Read, id) {
        Ok(_) => {},
        Err(e) => {
            return Err(e);
        },
    }
    Ok(store.read_group_revisions(id))
}

/// GetCurrentObjectGroupRevision is reserved.
pub fn get_current_object_group_revision(store: &MetaStore, _meta: &RequestMetadata) -> (r:
    Result<ObjectGroupRevision, ApiError>)
    ensures
        r matches Err(e) && e.kind == ErrorKind::Unimplemented,
{
    Err(ApiError::new(ErrorKind::Unimplemented, "not implemented"))
}

/// FinishObjectUpload is reserved.
pub fn finish_object_upload(store: &MetaStore, _meta: &RequestMetadata) -> (r: Result<
    (),
    ApiError,
>)
    ensures
        r matches Err(e) && e.kind == ErrorKind::Unimplemented,
{
    Err(ApiError::new(ErrorKind::Unimplemented, "not implemented"))
}

/// DeleteObjectGroup: removes the group and its revisions; the returned
/// locations are the removed objects' payloads.
pub fn delete_object_group(
    store: &mut MetaStore,
    meta: &RequestMetadata,
    oauth_user: &Option<String>,
    id: &str,
) -> (r: Result<Vec<Location>, ApiError>)
    requires
        wf(old(store)@),
    ensures
        wf(final(store)@),
        no_credentials(*meta) ==> (r matches Err(e) && e.kind == ErrorKind::Unauthenticated
            && *final(store) == *old(store)),
        caller_authorized(old(store)@, *meta, *oauth_user, Resource::ObjectGroup, Right::Write,
            id@) && (forall|r2: int|
            0 <= r2 < old(store)@.revisions.len()
                && (#[trigger] old(store)@.revisions[r2]).object_group_id == id@
                ==> old(store)@.revisions[r2].dataset_versions.len() == 0) ==> r is Ok,
        r matches Err(e) ==> *final(store) == *old(store) && (!no_credentials(*meta)
            && !crate::store::has_group(old(store)@, id@) ==> e.kind == ErrorKind::NotFound),
        r matches Ok(_) ==> {
            &&& final(store)@.object_groups == old(store)@.object_groups.filter(
                crate::delete::other_group(id@),
            )
            &&& final(store)@.revisions == old(store)@.revisions.filter(
                crate::delete::outside_group(id@),
            )
            &&& crate::store::same_except_groups_and_revisions(old(store)@, final(store)@)
        },
{
    match authorize(store, meta, oauth_user, Resource::ObjectGroup, Right::Write, id) {
        Ok(_) => {
            proof {
                assert(crate::store::has_group(old(store)@, id@) || no_credentials(*meta));
            }
        },
        Err(e) => {
            proof {
                if !no_credentials(*meta) && !crate::store::has_group(old(store)@, id@) {
                    assert(!(exists|pid: Seq<char>|
                        crate::auth::resolves_to(old(store)@, Resource::ObjectGroup, id@, pid)));
                    assert(!crate::auth::resource_present(
                        old(store)@,
                        Resource::ObjectGroup,
                        id@,
                    ));
                }
            }
            return Err(e);
        },
    }
    let r = crate::delete::delete_object_group(store, id);
    proof {
        if r is Err {
            assert(!(exists|pid: Seq<char>|
                crate::auth::resolves_to(old(store)@, Resource::ObjectGroup, id@, pid))
                || (exists|r2: int|
                0 <= r2 < old(store)@.revisions.len()
                    && (#[trigger] old(store)@.revisions[r2]).object_group_id == id@
                    && old(store)@.revisions[r2].dataset_versions.len() != 0));
        }
    }
    r
}

/// DeleteObjectGroupRevision: refused while any dataset version freezes
/// the revision.
pub fn delete_object_group_revision(
    store: &mut MetaStore,
    meta: &RequestMetadata,
    oauth_user: &Option<String>,
    id: &str,
) -> (r: Result<Vec<Location>, ApiError>)
    requires
        wf(old(store)@),
    ensures
        wf(final(store)@),
        no_credentials(*meta) ==> (r matches Err(e) && e.kind == ErrorKind::Unauthenticated
            && *final(store) == *old(store)),
        caller_authorized(old(store)@, *meta, *oauth_user, Resource::ObjectGroupRevision,
            Right::Write, id@) && (forall|ri: int|
            0 <= ri < old(store)@.revisions.len() && (#[trigger] old(store)@.revisions[ri]).id
                == id@ ==> old(store)@.revisions[ri].dataset_versions.len() == 0) ==> r is Ok,
        r matches Err(e) ==> *final(store) == *old(store),
        r matches Ok(_) ==> !crate::store::has_revision(final(store)@, id@)
            && crate::store::same_except_revisions(old(store)@, final(store)@),
{
    match authorize(store, meta, oauth_user, Resource::ObjectGroupRevision, Right::Write, id) {
        Ok(_) => {},
        Err(e) => {
            return Err(e);
        },
    }
    let r = crate::delete::delete_object_revision(store, id);
    proof {
        if r is Err {
            assert(!(exists|pid: Seq<char>|
                crate::auth::resolves_to(old(store)@, Resource::ObjectGroupRevision, id@, pid))
                || (exists|ri: int|
                0 <= ri < old(store)@.revisions.len()
                    && (#[trigger] old(store)@.revisions[ri]).id == id@
                    && old(store)@.revisions[ri].dataset_versions.len() != 0));
        }
        if r is Ok {
            let old_revs = old(store)@.revisions;
            let ri = choose|ri: int|
                0 <= ri < old_revs.len() && (#[trigger] old_revs[ri]).id == id@
                    && old_revs[ri].dataset_versions.len() == 0 && store@.revisions
                    == old_revs.remove(ri) && crate::delete::revision_locations(old_revs[ri])
                    == crate::delete::revision_locations(old_revs[ri]);
            if crate::store::has_revision(store@, id@) {
                let j = choose|j: int|
                    0 <= j < store@.revisions.len() && (#[trigger] store@.revisions[j]).id == id@;
                let j0 = if j < ri { j } else { j + 1 };
                assert(store@.revisions[j] == old_revs[j0]);
                assert(old_revs[j0].id == old_revs[ri].id);
                assert(false);
            }
        }
    }
    r
}

/// CreateUploadLink: the location the transport presigns for writing the
/// object's payload.
pub fn create_upload_link(
    store: &MetaStore,
    meta: &RequestMetadata,
    oauth_user: &Option<String>,
    id: &str,
) -> (r: Result<Location, ApiError>)
    requires
        wf(store@),
    ensures
        no_credentials(*meta) ==> (r matches Err(e) && e.kind == ErrorKind::Unauthenticated),
        caller_authorized(store@, *meta, *oauth_user, Resource::Object, Right::Write, id@)
            ==> r is Ok,
        r matches Ok(loc) ==> exists|ri: int, oi: int|
            #![trigger store@.revisions[ri].objects[oi]]
            0 <= ri < store@.revisions.len() && 0 <= oi < store@.revisions[ri].objects.len()
                && store@.revisions[ri].objects[oi].id == id@
                && loc@ == store@.revisions[ri].objects[oi].location,
{
    match authorize(store, meta, oauth_user, Resource::Object, Right::Write, id) {
        Ok(_) => {},
        Err(e) => {
            return Err(e);
        },
    }
    let r = crate::load::create_upload_link(store, id);
    proof {
        if r is Err {
            assert(!(exists|pid: Seq<char>|
                crate::auth::resolves_to(store@, Resource::Object, id@, pid)));
        }
    }
    r
}

/// CreateDownloadLink: the object and the location the transport presigns
/// for reading its payload.
pub fn create_download_link(
    store: &MetaStore,
    meta: &RequestMetadata,
    oauth_user: &Option<String>,
    id: &str,
) -> (r: Result<(DatasetObject, Location), ApiError>)
    requires
        wf(store@),
    ensures
        no_credentials(*meta) ==> (r matches Err(e) && e.kind == ErrorKind::Unauthenticated),
        caller_authorized(store@, *meta, *oauth_user, Resource::Object, Right::Read, id@)
            ==> r is Ok,
        r matches Ok(p) ==> p.0@.id == id@ && p.1@ == p.0@.location,
{
    match authorize(store, meta, oauth_user, Resource::Object, Right::Read, id) {
        Ok(_) => {},
        Err(e) => {
            return Err(e);
        },
    }
    let obj = match store.read_object(id) {
        Ok(o) => o,
        Err(e) => {
            proof {
                assert(!(exists|pid: Seq<char>|
                    crate::auth::resolves_to(store@, Resource::Object, id@, pid)));
            }
            return Err(e);
        },
    };
    let loc = obj.location.clone();
    Ok((obj, loc))
}

/// StartMultipartUpload: records the upload id the object store handed
/// back for this object and returns the object with it set.
pub fn start_multipart_upload(
    store: &mut MetaStore,
    meta: &RequestMetadata,
    oauth_user: &Option<String>,
    id: &str,
    upload_id: &str,
) -> (r: Result<DatasetObject, ApiError>)
    requires
        wf(old(store)@),
    ensures
        wf(final(store)@),
        no_credentials(*meta) ==> (r matches Err(e) && e.kind == ErrorKind::Unauthenticated
            && *final(store) == *old(store)),
        caller_authorized(old(store)@, *meta, *oauth_user, Resource::Object, Right::Write, id@)
            ==> r is Ok,
        r matches Err(e) ==> *final(store) == *old(store),
        r matches Ok(o) ==> o@.id == id@ && o@.upload_id == upload_id@
            && crate::store::same_except_revisions(old(store)@, final(store)@),
{
    match authorize(store, meta, oauth_user, Resource::Object, Right::Write, id) {
        Ok(_) => {},
        Err(e) => {
            return Err(e);
        },
    }
    let r = crate::load::init_multipart_upload(store, id, upload_id);
    proof {
        if r is Err {
            assert(!(exists|pid: Seq<char>|
                crate::auth::resolves_to(old(store)@, Resource::Object, id@, pid)));
        }
    }
    r
}

/// GetMultipartUploadLink: the location and recorded upload id the
/// transport presigns for one part.
pub fn get_multipart_upload_link(
    store: &MetaStore,
    meta: &RequestMetadata,
    oauth_user: &Option<String>,
    id: &str,
) -> (r: Result<(Location, String), ApiError>)
    requires
        wf(store@),
    ensures
        no_credentials(*meta) ==> (r matches Err(e) && e.kind == ErrorKind::Unauthenticated),
        caller_authorized(store@, *meta, *oauth_user, Resource::Object, Right::Read, id@)
            ==> r is Ok,
        r matches Ok(p) ==> exists|ri: int, oi: int|
            #![trigger store@.revisions[ri].objects[oi]]
            0 <= ri < store@.revisions.len() && 0 <= oi < store@.revisions[ri].objects.len()
                && store@.revisions[ri].objects[oi].id == id@
                && p.0@ == store@.revisions[ri].objects[oi].location && p.1@
                == store@.revisions[ri].objects[oi].upload_id,
{
    match authorize(store, meta, oauth_user, Resource::Object, Right::Read, id) {
        Ok(_) => {},
        Err(e) => {
            return Err(e);
        },
    }
    let r = crate::load::create_multipart_upload_link(store, id);
    proof {
        if r is Err {
            assert(!(exists|pid: Seq<char>|
                crate::auth::resolves_to(store@, Resource::Object, id@, pid)));
        }
    }
    r
}

/// CompleteMultipartUpload: the location and recorded upload id the
/// transport completes against the object store, with the caller's parts
/// in order.
pub fn complete_multipart_upload(
    store: &MetaStore,
    meta: &RequestMetadata,
    oauth_user: &Option<String>,
    id: &str,
) -> (r: Result<(Location, String), ApiError>)
    requires
        wf(store@),
    ensures
        no_credentials(*meta) ==> (r matches Err(e) && e.kind == ErrorKind::Unauthenticated),
        caller_authorized(store@, *meta, *oauth_user, Resource::Object, Right::Read, id@)
            ==> r is Ok,
        r matches Ok(p) ==> exists|ri: int, oi: int|
            #![trigger store@.revisions[ri].objects[oi]]
            0 <= ri < store@.revisions.len() && 0 <= oi < store@.revisions[ri].objects.len()
                && store@.revisions[ri].objects[oi].id == id@
                && p.0@ == store@.revisions[ri].objects[oi].location && p.1@
                == store@.revisions[ri].objects[oi].upload_id,
{
    match authorize(store, meta, oauth_user, Resource::Object, Right::Read, id) {
        Ok(_) => {},
        Err(e) => {
            return Err(e);
        },
    }
    let r = crate::load::finish_multipart_upload(store, id);
    proof {
        if r is Err {
            assert(!(exists|pid: Seq<char>|
                crate::auth::resolves_to(store@, Resource::Object, id@, pid)));
        }
    }
    r
}

} // verus!
