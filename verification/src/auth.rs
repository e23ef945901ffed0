//! Identity and authorization: every RPC names a resource, the resource
//! resolves to its owning project, and the caller must hold the required
//! right there.
//!
//! Two credential kinds are recognized in request metadata: an OAuth2
//! bearer token (the userinfo endpoint, called outside this crate, maps
//! it to a user id) and a server-issued API token.  When both are present
//! the user token wins; with neither the call is unauthenticated.

use vstd::prelude::*;

use crate::apitoken::{APIToken, ApiTokenView};
use crate::common::{users_grant, Resource, Right};
use crate::error::{ApiError, ErrorKind};
use crate::outside::{extract_sub_claim, sub_claim_of};
use crate::requests::RequestMetadata;
use crate::store::{has_project, wf, MetaStore, StoreView};

verus! {

/// Metadata entry carrying an API token.
pub fn api_token_entry_key() -> (r: String)
    ensures
        r@ == "API_TOKEN"@,
{
    "API_TOKEN".to_owned()
}

/// Metadata entry carrying an OAuth2 bearer token.
pub fn user_token_entry_key() -> (r: String)
    ensures
        r@ == "AccessToken"@,
{
    "AccessToken".to_owned()
}

/// Whether a resource of kind `resource` with `id` exists in the store;
/// projects are resolved by identity, so they count as always present.
pub open spec fn resource_present(sv: StoreView, resource: Resource, id: Seq<char>) -> bool {
    match resource {
        Resource::Project => true,
        Resource::Dataset => crate::store::has_dataset(sv, id),
        Resource::DatasetVersion => crate::store::has_version(sv, id),
        Resource::ObjectGroup => crate::store::has_group(sv, id),
        Resource::ObjectGroupRevision => crate::store::has_revision(sv, id),
        Resource::Object => crate::store::has_object(sv, id),
    }
}

/// Whether resource `id` of kind `resource` is owned by project `pid`.
pub open spec fn resolves_to(
    sv: StoreView,
    resource: Resource,
    id: Seq<char>,
    pid: Seq<char>,
) -> bool {
    match resource {
        Resource::Project => pid == id,
        Resource::Dataset => exists|d: int|
            0 <= d < sv.datasets.len() && (#[trigger] sv.datasets[d]).id == id
                && sv.datasets[d].project_id == pid,
        Resource::DatasetVersion => exists|v: int, d: int|
            #![trigger sv.dataset_versions[v], sv.datasets[d]]
            0 <= v < sv.dataset_versions.len() && sv.dataset_versions[v].id == id && 0 <= d
                < sv.datasets.len() && sv.datasets[d].id == sv.dataset_versions[v].dataset_id
                && sv.datasets[d].project_id == pid,
        Resource::ObjectGroup => exists|g: int, d: int|
            #![trigger sv.object_groups[g], sv.datasets[d]]
            0 <= g < sv.object_groups.len() && sv.object_groups[g].id == id && 0 <= d
                < sv.datasets.len() && sv.datasets[d].id == sv.object_groups[g].dataset_id
                && sv.datasets[d].project_id == pid,
        Resource::ObjectGroupRevision => exists|r: int, d: int|
            #![trigger sv.revisions[r], sv.datasets[d]]
            0 <= r < sv.revisions.len() && sv.revisions[r].id == id && 0 <= d < sv.datasets.len()
                && sv.datasets[d].id == sv.revisions[r].dataset_id && sv.datasets[d].project_id
                == pid,
        Resource::Object => exists|r: int, k: int, d: int|
            #![trigger sv.revisions[r].objects[k], sv.datasets[d]]
            0 <= r < sv.revisions.len() && 0 <= k < sv.revisions[r].objects.len()
                && sv.revisions[r].objects[k].id == id && 0 <= d < sv.datasets.len()
                && sv.datasets[d].id == sv.revisions[r].dataset_id && sv.datasets[d].project_id
                == pid,
    }
}

/// Whether the project `pid` grants `right` to `user_id`.
pub open spec fn oauth_authorized(
    sv: StoreView,
    pid: Seq<char>,
    user_id: Seq<char>,
    right: Right,
) -> bool {
    exists|i: int|
        0 <= i < sv.projects.len() && (#[trigger] sv.projects[i]).id == pid && users_grant(
            sv.projects[i].users,
            user_id,
            right,
        )
}

/// Whether API token `t` grants `right` on project `pid`: the token is
/// scoped to exactly its own project.
pub open spec fn token_authorizes(t: ApiTokenView, pid: Seq<char>, right: Right) -> bool {
    t.project_id == pid && t.rights.contains(right)
}

/// `i` is the position of the first stored token whose secret is `t`.
pub open spec fn token_match_at(toks: Seq<ApiTokenView>, t: Seq<char>, i: int) -> bool {
    0 <= i < toks.len() && toks[i].token == t && (forall|j: int|
        0 <= j < i ==> (#[trigger] toks[j]).token != t)
}

/// An OAuth2 caller identified as `u` holds `right` on the project owning
/// resource `id`.
pub open spec fn oauth_would_authorize(
    sv: StoreView,
    u: Seq<char>,
    resource: Resource,
    right: Right,
    id: Seq<char>,
) -> bool {
    exists|pid: Seq<char>|
        #[trigger] resolves_to(sv, resource, id, pid) && oauth_authorized(sv, pid, u, right)
}

/// The first stored token with secret `t` grants `right` on the project
/// owning resource `id`.
pub open spec fn api_token_would_authorize(
    sv: StoreView,
    t: Seq<char>,
    resource: Resource,
    right: Right,
    id: Seq<char>,
) -> bool {
    exists|i: int, pid: Seq<char>|
        #![trigger token_match_at(sv.api_tokens, t, i), resolves_to(sv, resource, id, pid)]
        token_match_at(sv.api_tokens, t, i) && resolves_to(sv, resource, id, pid)
            && token_authorizes(sv.api_tokens[i], pid, right)
}

/// The request's active credential grants `right` on the project owning
/// resource `id`: the userinfo identity in bearer mode, the first
/// matching stored token in API-token mode, and nothing without a
/// credential.
pub open spec fn caller_authorized(
    sv: StoreView,
    meta: RequestMetadata,
    oauth_user: Option<String>,
    resource: Resource,
    right: Right,
    id: Seq<char>,
) -> bool {
    if meta.access_token is Some {
        match oauth_user {
            Option::Some(u) => oauth_would_authorize(sv, u@, resource, right, id),
            Option::None => false,
        }
    } else {
        match meta.api_token {
            Option::Some(t) => api_token_would_authorize(sv, t@, resource, right, id),
            Option::None => false,
        }
    }
}

/// The error kind authorization reports for this request, or `None` when
/// the active credential grants `right`: no credential or a failed
/// identity is unauthenticated, an unresolvable resource is not-found
/// (absent) or internal (broken chain), a resolved project that is
/// missing is internal, and an authenticated caller without the right is
/// permission-denied.
pub open spec fn auth_denial_kind(
    sv: StoreView,
    meta: RequestMetadata,
    oauth_user: Option<String>,
    resource: Resource,
    right: Right,
    id: Seq<char>,
) -> Option<ErrorKind> {
    if meta.access_token is None && meta.api_token is None {
        Option::Some(ErrorKind::Unauthenticated)
    } else if !(exists|pid: Seq<char>| resolves_to(sv, resource, id, pid)) {
        if !resource_present(sv, resource, id) {
            Option::Some(ErrorKind::NotFound)
        } else {
            Option::Some(ErrorKind::Internal)
        }
    } else if meta.access_token is Some {
        match oauth_user {
            Option::None => Option::Some(ErrorKind::Unauthenticated),
            Option::Some(u) => if oauth_would_authorize(sv, u@, resource, right, id) {
                Option::None
            } else if exists|pid: Seq<char>|
                #[trigger] resolves_to(sv, resource, id, pid) && !has_project(sv, pid) {
                Option::Some(ErrorKind::Internal)
            } else {
                Option::Some(ErrorKind::PermissionDenied)
            },
        }
    } else {
        match meta.api_token {
            Option::Some(t) => if forall|i: int|
                0 <= i < sv.api_tokens.len() ==> (#[trigger] sv.api_tokens[i]).token != t@ {
                Option::Some(ErrorKind::Unauthenticated)
            } else if api_token_would_authorize(sv, t@, resource, right, id) {
                Option::None
            } else {
                Option::Some(ErrorKind::PermissionDenied)
            },
            Option::None => Option::Some(ErrorKind::Unauthenticated),
        }
    }
}

/// In a well-formed store, a resource resolves to at most one owning
/// project.
pub proof fn lemma_resolution_functional(
    sv: StoreView,
    resource: Resource,
    id: Seq<char>,
    pid1: Seq<char>,
    pid2: Seq<char>,
)
    requires
        wf(sv),
        resolves_to(sv, resource, id, pid1),
        resolves_to(sv, resource, id, pid2),
    ensures
        pid1 == pid2,
{
    match resource {
        Resource::Project => {},
        Resource::Dataset => {
            let d1 = choose|d: int|
                0 <= d < sv.datasets.len() && (#[trigger] sv.datasets[d]).id == id
                    && sv.datasets[d].project_id == pid1;
            let d2 = choose|d: int|
                0 <= d < sv.datasets.len() && (#[trigger] sv.datasets[d]).id == id
                    && sv.datasets[d].project_id == pid2;
            if d1 < d2 {
                assert(sv.datasets[d1].id != sv.datasets[d2].id);
            }
            if d2 < d1 {
                assert(sv.datasets[d2].id != sv.datasets[d1].id);
            }
        },
        Resource::DatasetVersion => {
            let (v1, d1) = choose|v: int, d: int|
                #![trigger sv.dataset_versions[v], sv.datasets[d]]
                0 <= v < sv.dataset_versions.len() && sv.dataset_versions[v].id == id && 0 <= d
                    < sv.datasets.len() && sv.datasets[d].id == sv.dataset_versions[v].dataset_id
                    && sv.datasets[d].project_id == pid1;
            let (v2, d2) = choose|v: int, d: int|
                #![trigger sv.dataset_versions[v], sv.datasets[d]]
                0 <= v < sv.dataset_versions.len() && sv.dataset_versions[v].id == id && 0 <= d
                    < sv.datasets.len() && sv.datasets[d].id == sv.dataset_versions[v].dataset_id
                    && sv.datasets[d].project_id == pid2;
            if v1 < v2 {
                assert(sv.dataset_versions[v1].id != sv.dataset_versions[v2].id);
            }
            if v2 < v1 {
                assert(sv.dataset_versions[v2].id != sv.dataset_versions[v1].id);
            }
            if d1 < d2 {
                assert(sv.datasets[d1].id != sv.datasets[d2].id);
            }
            if d2 < d1 {
                assert(sv.datasets[d2].id != sv.datasets[d1].id);
            }
        },
        Resource::ObjectGroup => {
            let (g1, d1) = choose|g: int, d: int|
                #![trigger sv.object_groups[g], sv.datasets[d]]
                0 <= g < sv.object_groups.len() && sv.object_groups[g].id == id && 0 <= d
                    < sv.datasets.len() && sv.datasets[d].id == sv.object_groups[g].dataset_id
                    && sv.datasets[d].project_id == pid1;
            let (g2, d2) = choose|g: int, d: int|
                #![trigger sv.object_groups[g], sv.datasets[d]]
                0 <= g < sv.object_groups.len() && sv.object_groups[g].id == id && 0 <= d
                    < sv.datasets.len() && sv.datasets[d].id == sv.object_groups[g].dataset_id
                    && sv.datasets[d].project_id == pid2;
            if g1 < g2 {
                assert(sv.object_groups[g1].id != sv.object_groups[g2].id);
            }
            if g2 < g1 {
                assert(sv.object_groups[g2].id != sv.object_groups[g1].id);
            }
            if d1 < d2 {
                assert(sv.datasets[d1].id != sv.datasets[d2].id);
            }
            if d2 < d1 {
                assert(sv.datasets[d2].id != sv.datasets[d1].id);
            }
        },
        Resource::ObjectGroupRevision => {
            let (r1, d1) = choose|r: int, d: int|
                #![trigger sv.revisions[r], sv.datasets[d]]
                0 <= r < sv.revisions.len() && sv.revisions[r].id == id && 0 <= d
                    < sv.datasets.len() && sv.datasets[d].id == sv.revisions[r].dataset_id
                    && sv.datasets[d].project_id == pid1;
            let (r2, d2) = choose|r: int, d: int|
                #![trigger sv.revisions[r], sv.datasets[d]]
                0 <= r < sv.revisions.len() && sv.revisions[r].id == id && 0 <= d
                    < sv.datasets.len() && sv.datasets[d].id == sv.revisions[r].dataset_id
                    && sv.datasets[d].project_id == pid2;
            if r1 < r2 {
                assert(sv.revisions[r1].id != sv.revisions[r2].id);
            }
            if r2 < r1 {
                assert(sv.revisions[r2].id != sv.revisions[r1].id);
            }
            if d1 < d2 {
                assert(sv.datasets[d1].id != sv.datasets[d2].id);
            }
            if d2 < d1 {
                assert(sv.datasets[d2].id != sv.datasets[d1].id);
            }
        },
        Resource::Object => {
            let (r1, k1, d1) = choose|r: int, k: int, d: int|
                #![trigger sv.revisions[r].objects[k], sv.datasets[d]]
                0 <= r < sv.revisions.len() && 0 <= k < sv.revisions[r].objects.len()
                    && sv.revisions[r].objects[k].id == id && 0 <= d < sv.datasets.len()
                    && sv.datasets[d].id == sv.revisions[r].dataset_id && sv.datasets[d].project_id
                    == pid1;
            let (r2, k2, d2) = choose|r: int, k: int, d: int|
                #![trigger sv.revisions[r].objects[k], sv.datasets[d]]
                0 <= r < sv.revisions.len() && 0 <= k < sv.revisions[r].objects.len()
                    && sv.revisions[r].objects[k].id == id && 0 <= d < sv.datasets.len()
                    && sv.datasets[d].id == sv.revisions[r].dataset_id && sv.datasets[d].project_id
                    == pid2;
            if r1 != r2 || k1 != k2 {
                assert(sv.revisions[r1].objects[k1].id != sv.revisions[r2].objects[k2].id);
            }
            if d1 < d2 {
                assert(sv.datasets[d1].id != sv.datasets[d2].id);
            }
            if d2 < d1 {
                assert(sv.datasets[d2].id != sv.datasets[d1].id);
            }
        },
    }
}

/// Resolves a resource id to the id of its owning project, walking the
/// ownership chain through the store.  A failed step is an internal
/// error: the id was well-formed but unresolvable.
pub fn resolve_project_id(store: &MetaStore, resource: Resource, id: &str) -> (r: Result<
    String,
    ApiError,
>)
    requires
        wf(store@),
    ensures
        match r {
            Ok(pid) => resolves_to(store@, resource, id@, pid@),
            Err(e) => {
                &&& !(exists|pid: Seq<char>| resolves_to(store@, resource, id@, pid))
                &&& (e.kind == ErrorKind::NotFound || e.kind == ErrorKind::Internal)
                &&& (e.kind == ErrorKind::NotFound <==> !resource_present(store@, resource, id@))
            },
        },
{
    match resource {
        Resource::Project => Ok(id.to_owned()),
        Resource::Dataset => {
            match store.find_dataset(id) {
                Some(d) => Ok(store.datasets[d].project_id.clone()),
                None => Err(
                    ApiError::new(ErrorKind::NotFound, "could not find requested document"),
                ),
            }
        },
        Resource::DatasetVersion => {
            match store.find_dataset_version(id) {
                Some(v) => {
                    let did = store.dataset_versions[v].dataset_id.clone();
                    match store.find_dataset(did.as_str()) {
                        Some(d) => Ok(store.datasets[d].project_id.clone()),
                        None => Err(
                            ApiError::new(
                                ErrorKind::Internal,
                                "could not authorize requested action",
                            ),
                        ),
                    }
                },
                None => Err(
                    ApiError::new(ErrorKind::NotFound, "could not find requested document"),
                ),
            }
        },
        Resource::ObjectGroup => {
            match store.find_object_group(id) {
                Some(g) => {
                    let did = store.object_groups[g].dataset_id.clone();
                    match store.find_dataset(did.as_str()) {
                        Some(d) => Ok(store.datasets[d].project_id.clone()),
                        None => Err(
                            ApiError::new(
                                ErrorKind::Internal,
                                "could not authorize requested action",
                            ),
                        ),
                    }
                },
                None => Err(
                    ApiError::new(ErrorKind::NotFound, "could not find requested document"),
                ),
            }
        },
        Resource::ObjectGroupRevision => {
            match store.find_revision(id) {
                Some(rv) => {
                    let did = store.revisions[rv].dataset_id.clone();
                    match store.find_dataset(did.as_str()) {
                        Some(d) => Ok(store.datasets[d].project_id.clone()),
                        None => Err(
                            ApiError::new(
                                ErrorKind::Internal,
                                "could not authorize requested action",
                            ),
                        ),
                    }
                },
                None => Err(
                    ApiError::new(ErrorKind::NotFound, "could not find requested document"),
                ),
            }
        },
        Resource::Object => {
            match store.find_object(id) {
                Some((rv, oi)) => {
                    let did = store.revisions[rv].dataset_id.clone();
                    proof {
                        assert(store@.revisions[rv as int].objects[oi as int].id == id@);
                    }
                    match store.find_dataset(did.as_str()) {
                        Some(d) => Ok(store.datasets[d].project_id.clone()),
                        None => Err(
                            ApiError::new(
                                ErrorKind::Internal,
                                "could not authorize requested action",
                            ),
                        ),
                    }
                },
                None => Err(
                    ApiError::new(ErrorKind::NotFound, "could not find requested document"),
                ),
            }
        },
    }
}

/// OAuth2-mode authorization: loads the resolved project and requires a
/// user entry for `user_id` holding `right`.  A missing project is an
/// internal error; a present project without the grant is
/// permission-denied.
pub fn authorize_from_user_token(
    store: &MetaStore,
    project_id: &str,
    user_id: &str,
    right: Right,
) -> (r: Result<(), ApiError>)
    requires
        wf(store@),
    ensures
        r is Ok <==> oauth_authorized(store@, project_id@, user_id@, right),
        match r {
            Ok(_) => true,
            Err(e) => {
                &&& (e.kind == ErrorKind::Internal <==> !has_project(store@, project_id@))
                &&& (e.kind == ErrorKind::PermissionDenied <==> has_project(store@, project_id@))
            },
        },
{
    match store.find_project(project_id) {
        None => {
            proof {
                assert(!oauth_authorized(store@, project_id@, user_id@, right));
            }
            Err(ApiError::new(ErrorKind::Internal, "could not authorize requested action"))
        },
        Some(i) => {
            if crate::common::users_grant_right(&store.projects[i].users, user_id, right) {
                proof {
                    assert(store@.projects[i as int].id == project_id@);
                }
                Ok(())
            } else {
                proof {
                    assert forall|j: int|
                        0 <= j < store@.projects.len() && (#[trigger] store@.projects[j]).id
                            == project_id@ implies !users_grant(
                        store@.projects[j].users,
                        user_id@,
                        right,
                    ) by {
                        assert(j == i as int);
                    }
                }
                Err(
                    ApiError::new(
                        ErrorKind::PermissionDenied,
                        "could not authorize requested action",
                    ),
                )
            }
        },
    }
}

/// API-token-mode authorization: the token must be scoped to the resolved
/// project and must carry the requested right.
pub fn authorize_from_api_token(token: &APIToken, project_id: &str, right: Right) -> (r: Result<
    (),
    ApiError,
>)
    ensures
        r is Ok <==> token_authorizes(token@, project_id@, right),
        r matches Err(e) ==> e.kind == ErrorKind::PermissionDenied,
{
    let wanted: String = project_id.to_owned();
    if !(token.project_id == wanted) {
        return Err(
            ApiError::new(ErrorKind::PermissionDenied, "could not authorize for requested project"),
        );
    }
    if crate::common::rights_contain(&token.rights, right) {
        Ok(())
    } else {
        Err(
            ApiError::new(ErrorKind::PermissionDenied, "could not authorize for requested project"),
        )
    }
}

/// The user id carried by a userinfo response body: the string value of
/// its `sub` claim.  A body without one cannot authenticate the caller.
pub fn user_id_from_userinfo_body(body: &str) -> (r: Result<String, ApiError>)
    ensures
        match r {
            Ok(u) => sub_claim_of(body@) == Some(u@),
            Err(e) => sub_claim_of(body@) is None && e.kind == ErrorKind::Unauthenticated,
        },
{
    match extract_sub_claim(body) {
        Some(u) => Ok(u),
        None => Err(
            ApiError::new(ErrorKind::Unauthenticated, "could not get user id from access token"),
        ),
    }
}

/// The caller's user id, by the active credential: the userinfo identity
/// for a bearer token (resolved outside this crate and handed in as
/// `oauth_user`), or the owning user of a recognized API token.
pub fn request_user_id(store: &MetaStore, meta: &RequestMetadata, oauth_user: &Option<String>)
    -> (r: Result<String, ApiError>)
    ensures
        meta.access_token is None && meta.api_token is None ==> (r matches Err(e) && e.kind
            == ErrorKind::Unauthenticated),
        meta.access_token is Some ==> match r {
            Ok(u) => oauth_user matches Some(u2) && u@ == u2@,
            Err(e) => oauth_user is None && e.kind == ErrorKind::Unauthenticated,
        },
        meta.access_token is None ==> (meta.api_token matches Some(t) ==> match r {
            Ok(u) => exists|i: int|
                0 <= i < store@.api_tokens.len() && (#[trigger] store@.api_tokens[i]).token == t@
                    && store@.api_tokens[i].user_id == u@,
            Err(e) => e.kind == ErrorKind::Unauthenticated && forall|i: int|
                0 <= i < store@.api_tokens.len() ==> (#[trigger] store@.api_tokens[i]).token
                    != t@,
        }),
{
    match &meta.access_token {
        Some(_) => {
            match oauth_user {
                Some(u) => Ok(u.clone()),
                None => Err(
                    ApiError::new(
                        ErrorKind::Unauthenticated,
                        "could not get user id from access token",
                    ),
                ),
            }
        },
        None => {
            match &meta.api_token {
                Some(t) => {
                    match store.find_api_token(t.as_str()) {
                        Some(i) => Ok(store.api_tokens[i].user_id.clone()),
                        None => Err(
                            ApiError::new(
                                ErrorKind::Unauthenticated,
                                "could not authenticate from api token",
                            ),
                        ),
                    }
                },
                None => Err(
                    ApiError::new(
                        ErrorKind::Unauthenticated,
                        "could not find authentication token, please provide a token in metadata",
                    ),
                ),
            }
        },
    }
}

/// Authorizes one RPC: requires a credential, resolves the resource to
/// its owning project, then checks the caller's right there by the active
/// credential.  `oauth_user` is the userinfo identity resolved outside
/// this crate when a bearer token is present.
pub fn authorize(
    store: &MetaStore,
    meta: &RequestMetadata,
    oauth_user: &Option<String>,
    resource: Resource,
    right: Right,
    id: &str,
) -> (r: Result<(), ApiError>)
    requires
        wf(store@),
    ensures
        r is Ok <==> caller_authorized(store@, *meta, *oauth_user, resource, right, id@),
        r matches Err(e) ==> auth_denial_kind(store@, *meta, *oauth_user, resource, right, id@)
            == Some(e.kind),
        meta.access_token is None && meta.api_token is None ==> (r matches Err(e) && e.kind
            == ErrorKind::Unauthenticated),
        r matches Err(e) ==> (e.kind == ErrorKind::Unauthenticated || e.kind
            == ErrorKind::Internal || e.kind == ErrorKind::NotFound || e.kind
            == ErrorKind::PermissionDenied),
        (meta.access_token is Some || meta.api_token is Some) && !(exists|pid: Seq<char>|
            resolves_to(store@, resource, id@, pid)) ==> (r matches Err(e) && (e.kind
            == ErrorKind::Internal || e.kind == ErrorKind::NotFound) && (e.kind
            == ErrorKind::NotFound <==> !resource_present(store@, resource, id@))),
        meta.access_token is Some && oauth_user is None && (exists|pid: Seq<char>|
            resolves_to(store@, resource, id@, pid)) ==> (r matches Err(e) && e.kind
            == ErrorKind::Unauthenticated),
        meta.access_token is Some ==> (oauth_user matches Some(u) ==> (((exists|pid: Seq<char>|
            #[trigger] resolves_to(store@, resource, id@, pid) && has_project(store@, pid))
            && !oauth_would_authorize(store@, u@, resource, right, id@)) ==> (r matches Err(e)
            && e.kind == ErrorKind::PermissionDenied))),
        meta.access_token is Some ==> (oauth_user matches Some(u) ==> ((exists|pid: Seq<char>|
            #[trigger] resolves_to(store@, resource, id@, pid) && !has_project(store@, pid))
            ==> (r matches Err(e) && e.kind == ErrorKind::Internal))),
        meta.access_token is None ==> (meta.api_token matches Some(t) ==> (((exists|
            pid: Seq<char>,
        | resolves_to(store@, resource, id@, pid)) && (forall|i: int|
            0 <= i < store@.api_tokens.len() ==> (#[trigger] store@.api_tokens[i]).token != t@))
            ==> (r matches Err(e) && e.kind == ErrorKind::Unauthenticated))),
        meta.access_token is None ==> (meta.api_token matches Some(t) ==> (((exists|
            pid: Seq<char>,
        | resolves_to(store@, resource, id@, pid)) && (exists|i: int|
            #[trigger] token_match_at(store@.api_tokens, t@, i)) && !api_token_would_authorize(
            store@,
            t@,
            resource,
            right,
            id@,
        )) ==> (r matches Err(e) && e.kind == ErrorKind::PermissionDenied))),
{
    if meta.access_token.is_none() && meta.api_token.is_none() {
        return Err(
            ApiError::new(
                ErrorKind::Unauthenticated,
                "could not find authentication token, please provide a token in metadata",
            ),
        );
    }
    let pid = match resolve_project_id(store, resource, id) {
        Ok(pid) => pid,
        Err(e) => {
            return Err(e);
        },
    };
    match &meta.access_token {
        Some(_) => {
            match oauth_user {
                None => {
                    proof {
                        assert(resolves_to(store@, resource, id@, pid@));
                    }
                    Err(
                        ApiError::new(
                            ErrorKind::Unauthenticated,
                            "could not get user id from access token",
                        ),
                    )
                },
                Some(u) => {
                    let res = authorize_from_user_token(store, pid.as_str(), u.as_str(), right);
                    proof {
                        assert(resolves_to(store@, resource, id@, pid@));
                        if res is Ok {
                            assert(oauth_would_authorize(store@, u@, resource, right, id@));
                        } else {
                            if oauth_would_authorize(store@, u@, resource, right, id@) {
                                let pid2 = choose|pid2: Seq<char>|
                                    #[trigger] resolves_to(store@, resource, id@, pid2)
                                        && oauth_authorized(store@, pid2, u@, right);
                                lemma_resolution_functional(store@, resource, id@, pid@, pid2);
                                assert(false);
                            }
                        }
                        if exists|pid2: Seq<char>|
                            #[trigger] resolves_to(store@, resource, id@, pid2) && has_project(
                                store@,
                                pid2,
                            ) {
                            let pid2 = choose|pid2: Seq<char>|
                                #[trigger] resolves_to(store@, resource, id@, pid2) && has_project(
                                    store@,
                                    pid2,
                                );
                            lemma_resolution_functional(store@, resource, id@, pid@, pid2);
                            assert(has_project(store@, pid@));
                        }
                        if exists|pid2: Seq<char>|
                            #[trigger] resolves_to(store@, resource, id@, pid2) && !has_project(
                                store@,
                                pid2,
                            ) {
                            let pid2 = choose|pid2: Seq<char>|
                                #[trigger] resolves_to(store@, resource, id@, pid2) && !has_project(
                                    store@,
                                    pid2,
                                );
                            lemma_resolution_functional(store@, resource, id@, pid@, pid2);
                            assert(!has_project(store@, pid@));
                        }
                    }
                    res
                },
            }
        },
        None => {
            match &meta.api_token {
                Some(t) => {
                    match store.find_api_token(t.as_str()) {
                        None => {
                            proof {
                                if api_token_would_authorize(store@, t@, resource, right, id@) {
                                    let (i2, pid2) = choose|i2: int, pid2: Seq<char>|
                                        #![trigger token_match_at(store@.api_tokens, t@, i2), resolves_to(store@, resource, id@, pid2)]
                                        token_match_at(store@.api_tokens, t@, i2) && resolves_to(
                                            store@,
                                            resource,
                                            id@,
                                            pid2,
                                        ) && token_authorizes(store@.api_tokens[i2], pid2, right);
                                    assert(store@.api_tokens[i2].token == t@);
                                    assert(false);
                                }
                            }
                            Err(
                                ApiError::new(
                                    ErrorKind::Unauthenticated,
                                    "could not authenticate from api token",
                                ),
                            )
                        },
                        Some(i) => {
                            let res = authorize_from_api_token(&store.api_tokens[i],
                                pid.as_str(), right);
                            proof {
                                assert(resolves_to(store@, resource, id@, pid@));
                                assert(token_match_at(store@.api_tokens, t@, i as int));
                                if res is Ok {
                                    assert(api_token_would_authorize(store@, t@, resource, right,
                                        id@));
                                } else {
                                    if api_token_would_authorize(store@, t@, resource, right,
                                        id@) {
                                        let (i2, pid2) = choose|i2: int, pid2: Seq<char>|
                                            #![trigger token_match_at(store@.api_tokens, t@, i2), resolves_to(store@, resource, id@, pid2)]
                                            token_match_at(store@.api_tokens, t@, i2)
                                                && resolves_to(store@, resource, id@, pid2)
                                                && token_authorizes(
                                                store@.api_tokens[i2],
                                                pid2,
                                                right,
                                            );
                                        if i2 < i as int {
                                            assert(store@.api_tokens[i2].token != t@);
                                        }
                                        if (i as int) < i2 {
                                            assert(store@.api_tokens[i as int].token != t@);
                                        }
                                        assert(i2 == i as int);
                                        lemma_resolution_functional(store@, resource, id@, pid@,
                                            pid2);
                                        assert(false);
                                    }
                                }
                            }
                            res
                        },
                    }
                },
                None => Err(
                    ApiError::new(
                        ErrorKind::Unauthenticated,
                        "could not find authentication token, please provide a token in metadata",
                    ),
                ),
            }
        },
    }
}

/// The all-permitting authenticator used by test builds: every call is
/// authorized and the caller is the fixed test user.
pub struct TestAuthenticator {}

impl TestAuthenticator {
    /// Every request is authorized.
    pub fn authorize(
        &self,
        _meta: &RequestMetadata,
        _resource: Resource,
        _right: Right,
        _id: &str,
    ) -> (r: Result<(), ApiError>)
        ensures
            r is Ok,
    {
        Ok(())
    }

    /// The fixed identity of the test caller.
    pub fn user_id(&self, _meta: &RequestMetadata) -> (r: String)
        ensures
            r@ == "testuser"@,
    {
        "testuser".to_owned()
    }
}

} // verus!
