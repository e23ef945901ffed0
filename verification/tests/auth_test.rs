//! Authentication and authorization behaviour: missing credentials,
//! missing rights, read-only tokens, token generation and the userinfo
//! claim lookup.

use sciobjsdb::apitoken::{generate_api_token, APIToken, TOKEN_LEN};
use sciobjsdb::auth;
use sciobjsdb::common::{Resource, Right};
use sciobjsdb::create;
use sciobjsdb::error::ErrorKind;
use sciobjsdb::requests::{CreateDatasetRequest, CreateProjectRequest, RequestMetadata};
use sciobjsdb::service;
use sciobjsdb::store::MetaStore;

fn no_meta() -> RequestMetadata {
    RequestMetadata { access_token: None, api_token: None }
}

fn oauth_meta() -> RequestMetadata {
    RequestMetadata { access_token: Some("bearer-token".to_string()), api_token: None }
}

fn api_meta(token: &str) -> RequestMetadata {
    RequestMetadata { access_token: None, api_token: Some(token.to_string()) }
}

fn store_with_project() -> (MetaStore, String) {
    let mut store = MetaStore::new();
    let p = create::create_project(
        &mut store,
        "authproject",
        "",
        Vec::new(),
        Vec::new(),
        "owner",
    )
    .unwrap();
    (store, p.id)
}

#[test]
fn mutating_call_without_credentials_is_unauthenticated() {
    let (mut store, project_id) = store_with_project();
    let err = service::create_dataset(
        &mut store,
        &no_meta(),
        &None,
        CreateDatasetRequest {
            project_id: project_id.clone(),
            name: "d".to_string(),
            labels: Vec::new(),
            metadata: Vec::new(),
        },
    )
    .unwrap_err();
    assert_eq!(err.kind, ErrorKind::Unauthenticated);

    let err2 =
        service::create_project(&mut store, &no_meta(), &None, CreateProjectRequest {
            name: "x".to_string(),
            description: String::new(),
            labels: Vec::new(),
            metadata: Vec::new(),
        })
        .unwrap_err();
    assert_eq!(err2.kind, ErrorKind::Unauthenticated);

    let err3 =
        service::delete_dataset(&mut store, &no_meta(), &None, "whatever").unwrap_err();
    assert_eq!(err3.kind, ErrorKind::Unauthenticated);
}

#[test]
fn caller_without_write_right_is_denied() {
    let (mut store, project_id) = store_with_project();
    // a stranger authenticates but holds no right on the project
    let err = service::create_dataset(
        &mut store,
        &oauth_meta(),
        &Some("stranger".to_string()),
        CreateDatasetRequest {
            project_id: project_id.clone(),
            name: "d".to_string(),
            labels: Vec::new(),
            metadata: Vec::new(),
        },
    )
    .unwrap_err();
    assert_eq!(err.kind, ErrorKind::PermissionDenied);
}

#[test]
fn read_right_alone_allows_reads_but_not_writes() {
    let (mut store, project_id) = store_with_project();
    // issue a read-only token for the project
    let token = create::create_api_token(
        &mut store,
        "reader",
        vec![Right::Read],
        project_id.as_str(),
    )
    .unwrap();
    let meta = api_meta(token.token.as_str());

    let datasets =
        service::get_project_datasets(&store, &meta, &None, project_id.as_str()).unwrap();
    assert_eq!(datasets.len(), 0);

    let err = service::create_dataset(
        &mut store,
        &meta,
        &None,
        CreateDatasetRequest {
            project_id: project_id.clone(),
            name: "d".to_string(),
            labels: Vec::new(),
            metadata: Vec::new(),
        },
    )
    .unwrap_err();
    assert_eq!(err.kind, ErrorKind::PermissionDenied);
}

#[test]
fn api_token_is_scoped_to_its_project() {
    let (mut store, project_id) = store_with_project();
    let other = create::create_project(
        &mut store,
        "otherproject",
        "",
        Vec::new(),
        Vec::new(),
        "owner",
    )
    .unwrap();
    let token = create::create_api_token(
        &mut store,
        "owner",
        vec![Right::Read, Right::Write],
        project_id.as_str(),
    )
    .unwrap();
    let meta = api_meta(token.token.as_str());

    // full rights on its own project…
    service::get_project_datasets(&store, &meta, &None, project_id.as_str()).unwrap();
    // …but none on another project
    let err =
        service::get_project_datasets(&store, &meta, &None, other.id.as_str()).unwrap_err();
    assert_eq!(err.kind, ErrorKind::PermissionDenied);
}

#[test]
fn unknown_api_token_is_unauthenticated() {
    let (store, project_id) = store_with_project();
    let err = service::get_project_datasets(
        &store,
        &api_meta("no-such-token"),
        &None,
        project_id.as_str(),
    )
    .unwrap_err();
    assert_eq!(err.kind, ErrorKind::Unauthenticated);
}

#[test]
fn resolution_of_missing_resource_is_not_found() {
    let (store, _project_id) = store_with_project();
    let err = auth::resolve_project_id(&store, Resource::Dataset, "missing").unwrap_err();
    assert_eq!(err.kind, ErrorKind::NotFound);
}

#[test]
fn resolution_through_a_broken_chain_is_internal() {
    let (mut store, _project_id) = store_with_project();
    // a dataset version whose dataset does not exist cannot be resolved
    let version = create::create_dataset_version(
        &mut store,
        "ghost-dataset",
        Vec::new(),
        Vec::new(),
        sciobjsdb::common::Version::default(),
        Vec::new(),
    )
    .unwrap();
    let err =
        auth::resolve_project_id(&store, Resource::DatasetVersion, version.id.as_str())
            .unwrap_err();
    assert_eq!(err.kind, ErrorKind::Internal);
}

#[test]
fn generated_tokens_draw_from_the_charset() {
    let token = generate_api_token();
    assert_eq!(token.len(), TOKEN_LEN);
    let charset = "ABCDEFGHIJKLMNOPQRSTUVWXYZabcdefghijklmnopqrstuvwxyz0123456789)(*&^%$#@!~";
    for c in token.chars() {
        assert!(charset.contains(c));
    }
    let token2 = APIToken::new("u".to_string(), "user", vec![Right::Read], "p");
    assert_eq!(token2.token.len(), TOKEN_LEN);
    assert_eq!(token2.user_id, "user");
    assert_eq!(token2.project_id, "p");
}

#[test]
fn userinfo_sub_claim_is_the_identity() {
    let user = auth::user_id_from_userinfo_body("{\"sub\": \"alice\", \"name\": \"A\"}").unwrap();
    assert_eq!(user, "alice");

    let missing = auth::user_id_from_userinfo_body("{\"name\": \"A\"}").unwrap_err();
    assert_eq!(missing.kind, ErrorKind::Unauthenticated);

    let garbage = auth::user_id_from_userinfo_body("not json at all").unwrap_err();
    assert_eq!(garbage.kind, ErrorKind::Unauthenticated);

    let non_string = auth::user_id_from_userinfo_body("{\"sub\": 17}").unwrap_err();
    assert_eq!(non_string.kind, ErrorKind::Unauthenticated);
}

#[test]
fn test_authenticator_permits_everything() {
    let authenticator = auth::TestAuthenticator {};
    authenticator
        .authorize(&no_meta(), Resource::Project, Right::Write, "any")
        .unwrap();
    assert_eq!(authenticator.user_id(&no_meta()), "testuser");
}

#[test]
fn fresh_uuids_are_hyphenated() {
    let id = sciobjsdb::outside::new_uuid();
    assert_eq!(id.len(), 36);
    let id2 = sciobjsdb::outside::new_uuid();
    assert_ne!(id, id2);
}
