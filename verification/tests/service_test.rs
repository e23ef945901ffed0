//! End-to-end scenarios over the RPC surface, with an OAuth2 caller whose
//! userinfo identity is supplied directly.

use sciobjsdb::common::{Version, VersionStage};
use sciobjsdb::error::ErrorKind;
use sciobjsdb::requests::{AddRevisionToObjectGroupRequest, CreateDatasetRequest,
    CreateObjectGroupRequest, CreateObjectGroupRevisionRequest, CreateObjectRequest,
    CreateProjectRequest, GetObjectGroupRevisionRequest, ReleaseDatasetVersionRequest,
    RequestMetadata, RevisionReference};
use sciobjsdb::service;
use sciobjsdb::store::MetaStore;

fn oauth_meta() -> RequestMetadata {
    RequestMetadata { access_token: Some("bearer-token".to_string()), api_token: None }
}

fn caller() -> Option<String> {
    Some("testuser".to_string())
}

fn project_request(name: &str) -> CreateProjectRequest {
    CreateProjectRequest {
        name: name.to_string(),
        description: String::new(),
        labels: Vec::new(),
        metadata: Vec::new(),
    }
}

fn version_zero() -> Version {
    Version { major: 0, minor: 0, patch: 0, revision: 0, version_stage: VersionStage::Alpha }
}

fn one_object_revision() -> CreateObjectGroupRevisionRequest {
    CreateObjectGroupRevisionRequest {
        labels: Vec::new(),
        metadata: Vec::new(),
        objects: vec![CreateObjectRequest {
            filename: "testobject.txt".to_string(),
            filetype: "txt".to_string(),
            content_len: 8,
            metadata: Vec::new(),
        }],
    }
}

#[test]
fn project_lifecycle() {
    let mut store = MetaStore::new();
    let meta = oauth_meta();
    let user = caller();

    service::create_project(&mut store, &meta, &user, project_request("testproject1")).unwrap();
    service::create_project(&mut store, &meta, &user, project_request("testproject2")).unwrap();

    let projects = service::get_user_projects(&store, &meta, &user).unwrap();
    assert_eq!(projects.len(), 2);
    let mut names: Vec<String> = projects.iter().map(|p| p.name.clone()).collect();
    names.sort();
    assert_eq!(names, vec!["testproject1".to_string(), "testproject2".to_string()]);
}

#[test]
fn object_upload_round_trip() {
    let mut store = MetaStore::new();
    let meta = oauth_meta();
    let user = caller();

    let project =
        service::create_project(&mut store, &meta, &user, project_request("p")).unwrap();
    let dataset = service::create_dataset(
        &mut store,
        &meta,
        &user,
        CreateDatasetRequest {
            project_id: project.id.clone(),
            name: "d".to_string(),
            labels: Vec::new(),
            metadata: Vec::new(),
        },
    )
    .unwrap();

    let (group, revision) = service::create_object_group(
        &mut store,
        &meta,
        &user,
        CreateObjectGroupRequest {
            dataset_id: dataset.id.clone(),
            name: "g".to_string(),
            labels: Vec::new(),
            metadata: Vec::new(),
            object_group_revision: Some(one_object_revision()),
        },
        "testbucket",
    )
    .unwrap();
    let revision = revision.unwrap();
    assert_eq!(revision.revision, 0);
    assert_eq!(group.revision_counter, 1);
    assert_eq!(revision.objects.len(), 1);

    let object_id = revision.objects[0].id.clone();
    let upload_target =
        service::create_upload_link(&store, &meta, &user, object_id.as_str()).unwrap();
    assert_eq!(upload_target.bucket, "testbucket");
    assert_eq!(
        upload_target.key,
        format!("{}/{}/testobject.txt", dataset.id, object_id)
    );

    let (object, download_target) =
        service::create_download_link(&store, &meta, &user, object_id.as_str()).unwrap();
    assert_eq!(object.id, object_id);
    assert_eq!(object.content_len, 8);
    assert_eq!(download_target.key, upload_target.key);
}

#[test]
fn second_revision() {
    let mut store = MetaStore::new();
    let meta = oauth_meta();
    let user = caller();

    let project =
        service::create_project(&mut store, &meta, &user, project_request("p")).unwrap();
    let dataset = service::create_dataset(
        &mut store,
        &meta,
        &user,
        CreateDatasetRequest {
            project_id: project.id.clone(),
            name: "d".to_string(),
            labels: Vec::new(),
            metadata: Vec::new(),
        },
    )
    .unwrap();
    let (group, _first) = service::create_object_group(
        &mut store,
        &meta,
        &user,
        CreateObjectGroupRequest {
            dataset_id: dataset.id.clone(),
            name: "g".to_string(),
            labels: Vec::new(),
            metadata: Vec::new(),
            object_group_revision: Some(one_object_revision()),
        },
        "testbucket",
    )
    .unwrap();

    let second = service::add_revision_to_object_group(
        &mut store,
        &meta,
        &user,
        AddRevisionToObjectGroupRequest {
            object_group_id: group.id.clone(),
            group_revision: Some(one_object_revision()),
        },
        "testbucket",
    )
    .unwrap();
    assert_eq!(second.revision, 1);

    let by_number = service::get_object_group_revision(
        &store,
        &meta,
        &user,
        &GetObjectGroupRevisionRequest {
            reference_type: RevisionReference::Revision,
            id: String::new(),
            object_group_id: group.id.clone(),
            revision: 1,
        },
    )
    .unwrap();
    assert_eq!(by_number.id, second.id);
    assert_eq!(by_number.objects[0].filename, "testobject.txt");

    let listed = service::get_object_group_revisions(&store, &meta, &user, group.id.as_str())
        .unwrap();
    assert_eq!(listed.len(), 2);
    assert_eq!(listed[0].revision, 0);
    assert_eq!(listed[1].revision, 1);
}

#[test]
fn release_and_delete_protection() {
    let mut store = MetaStore::new();
    let meta = oauth_meta();
    let user = caller();

    let project =
        service::create_project(&mut store, &meta, &user, project_request("p")).unwrap();
    let dataset = service::create_dataset(
        &mut store,
        &meta,
        &user,
        CreateDatasetRequest {
            project_id: project.id.clone(),
            name: "d".to_string(),
            labels: Vec::new(),
            metadata: Vec::new(),
        },
    )
    .unwrap();
    let (group, first) = service::create_object_group(
        &mut store,
        &meta,
        &user,
        CreateObjectGroupRequest {
            dataset_id: dataset.id.clone(),
            name: "g".to_string(),
            labels: Vec::new(),
            metadata: Vec::new(),
            object_group_revision: Some(one_object_revision()),
        },
        "testbucket",
    )
    .unwrap();
    let first = first.unwrap();
    let second = service::add_revision_to_object_group(
        &mut store,
        &meta,
        &user,
        AddRevisionToObjectGroupRequest {
            object_group_id: group.id.clone(),
            group_revision: Some(one_object_revision()),
        },
        "testbucket",
    )
    .unwrap();

    let version = service::release_dataset_version(
        &mut store,
        &meta,
        &user,
        ReleaseDatasetVersionRequest {
            dataset_id: dataset.id.clone(),
            labels: Vec::new(),
            metadata: Vec::new(),
            version: Some(version_zero()),
            revision_ids: vec![first.id.clone(), second.id.clone()],
        },
    )
    .unwrap();

    // a released revision must not be deletable
    let blocked =
        service::delete_object_group_revision(&mut store, &meta, &user, first.id.as_str())
            .unwrap_err();
    assert_eq!(blocked.kind, ErrorKind::InvalidArgument);
    assert!(store.read_revision(first.id.as_str()).is_ok());

    // deleting the version lifts the protection
    service::delete_dataset_version(&mut store, &meta, &user, version.id.as_str()).unwrap();
    service::delete_object_group_revision(&mut store, &meta, &user, first.id.as_str()).unwrap();
    assert_eq!(
        store.read_revision(first.id.as_str()).unwrap_err().kind,
        ErrorKind::NotFound
    );
}

#[test]
fn cascade() {
    let mut store = MetaStore::new();
    let meta = oauth_meta();
    let user = caller();

    let project =
        service::create_project(&mut store, &meta, &user, project_request("p")).unwrap();
    let dataset = service::create_dataset(
        &mut store,
        &meta,
        &user,
        CreateDatasetRequest {
            project_id: project.id.clone(),
            name: "d".to_string(),
            labels: Vec::new(),
            metadata: Vec::new(),
        },
    )
    .unwrap();
    let (_group, revision) = service::create_object_group(
        &mut store,
        &meta,
        &user,
        CreateObjectGroupRequest {
            dataset_id: dataset.id.clone(),
            name: "g".to_string(),
            labels: Vec::new(),
            metadata: Vec::new(),
            object_group_revision: Some(one_object_revision()),
        },
        "testbucket",
    )
    .unwrap();
    let revision = revision.unwrap();

    let removed_locations =
        service::delete_dataset(&mut store, &meta, &user, dataset.id.as_str()).unwrap();
    // the removed object's payload location is handed back for deletion
    assert_eq!(removed_locations.len(), 1);
    assert_eq!(removed_locations[0].key, revision.objects[0].location.key);

    let err = service::get_dataset(&store, &meta, &user, dataset.id.as_str()).unwrap_err();
    assert_eq!(err.kind, ErrorKind::NotFound);

    // deleting again reports not-found: the delete is idempotent to retry
    let again = service::delete_dataset(&mut store, &meta, &user, dataset.id.as_str())
        .unwrap_err();
    assert_eq!(again.kind, ErrorKind::NotFound);
}

#[test]
fn multipart() {
    let mut store = MetaStore::new();
    let meta = oauth_meta();
    let user = caller();

    let project =
        service::create_project(&mut store, &meta, &user, project_request("p")).unwrap();
    let dataset = service::create_dataset(
        &mut store,
        &meta,
        &user,
        CreateDatasetRequest {
            project_id: project.id.clone(),
            name: "d".to_string(),
            labels: Vec::new(),
            metadata: Vec::new(),
        },
    )
    .unwrap();
    let (_group, revision) = service::create_object_group(
        &mut store,
        &meta,
        &user,
        CreateObjectGroupRequest {
            dataset_id: dataset.id.clone(),
            name: "g".to_string(),
            labels: Vec::new(),
            metadata: Vec::new(),
            object_group_revision: Some(one_object_revision()),
        },
        "testbucket",
    )
    .unwrap();
    let revision = revision.unwrap();
    let object_id = revision.objects[0].id.clone();
    assert_eq!(revision.objects[0].upload_id, "");

    // the object store's CreateMultipartUpload answered with this id
    let started = service::start_multipart_upload(
        &mut store,
        &meta,
        &user,
        object_id.as_str(),
        "upload-id-1",
    )
    .unwrap();
    assert_eq!(started.id, object_id);
    assert_eq!(started.upload_id, "upload-id-1");
    assert!(!started.upload_id.is_empty());

    let (part_target, part_upload_id) =
        service::get_multipart_upload_link(&store, &meta, &user, object_id.as_str()).unwrap();
    assert_eq!(part_upload_id, "upload-id-1");
    assert_eq!(part_target.key, started.location.key);

    let (complete_target, complete_upload_id) =
        service::complete_multipart_upload(&store, &meta, &user, object_id.as_str()).unwrap();
    assert_eq!(complete_upload_id, "upload-id-1");
    assert_eq!(complete_target.key, started.location.key);

    // the recorded upload id is deliberately kept after completion
    let read_back = store.read_object(object_id.as_str()).unwrap();
    assert_eq!(read_back.upload_id, "upload-id-1");
}

#[test]
fn release_without_version_is_invalid() {
    let mut store = MetaStore::new();
    let meta = oauth_meta();
    let user = caller();

    let project =
        service::create_project(&mut store, &meta, &user, project_request("p")).unwrap();
    let dataset = service::create_dataset(
        &mut store,
        &meta,
        &user,
        CreateDatasetRequest {
            project_id: project.id.clone(),
            name: "d".to_string(),
            labels: Vec::new(),
            metadata: Vec::new(),
        },
    )
    .unwrap();

    let err = service::release_dataset_version(
        &mut store,
        &meta,
        &user,
        ReleaseDatasetVersionRequest {
            dataset_id: dataset.id.clone(),
            labels: Vec::new(),
            metadata: Vec::new(),
            version: None,
            revision_ids: Vec::new(),
        },
    )
    .unwrap_err();
    assert_eq!(err.kind, ErrorKind::InvalidArgument);
}

#[test]
fn missing_revision_request_is_invalid() {
    let mut store = MetaStore::new();
    let meta = oauth_meta();
    let user = caller();

    let project =
        service::create_project(&mut store, &meta, &user, project_request("p")).unwrap();
    let dataset = service::create_dataset(
        &mut store,
        &meta,
        &user,
        CreateDatasetRequest {
            project_id: project.id.clone(),
            name: "d".to_string(),
            labels: Vec::new(),
            metadata: Vec::new(),
        },
    )
    .unwrap();
    let (group, _) = service::create_object_group(
        &mut store,
        &meta,
        &user,
        CreateObjectGroupRequest {
            dataset_id: dataset.id.clone(),
            name: "g".to_string(),
            labels: Vec::new(),
            metadata: Vec::new(),
            object_group_revision: None,
        },
        "testbucket",
    )
    .unwrap();

    let err = service::add_revision_to_object_group(
        &mut store,
        &meta,
        &user,
        AddRevisionToObjectGroupRequest {
            object_group_id: group.id.clone(),
            group_revision: None,
        },
        "testbucket",
    )
    .unwrap_err();
    assert_eq!(err.kind, ErrorKind::InvalidArgument);
}

#[test]
fn head_follows_the_latest_append() {
    let mut store = MetaStore::new();
    let meta = oauth_meta();
    let user = caller();

    let project =
        service::create_project(&mut store, &meta, &user, project_request("p")).unwrap();
    let dataset = service::create_dataset(
        &mut store,
        &meta,
        &user,
        CreateDatasetRequest {
            project_id: project.id.clone(),
            name: "d".to_string(),
            labels: Vec::new(),
            metadata: Vec::new(),
        },
    )
    .unwrap();
    let (group, first) = service::create_object_group(
        &mut store,
        &meta,
        &user,
        CreateObjectGroupRequest {
            dataset_id: dataset.id.clone(),
            name: "g".to_string(),
            labels: Vec::new(),
            metadata: Vec::new(),
            object_group_revision: Some(one_object_revision()),
        },
        "testbucket",
    )
    .unwrap();
    assert_eq!(group.head_id, first.unwrap().id);

    let second = service::add_revision_to_object_group(
        &mut store,
        &meta,
        &user,
        AddRevisionToObjectGroupRequest {
            object_group_id: group.id.clone(),
            group_revision: Some(one_object_revision()),
        },
        "testbucket",
    )
    .unwrap();
    let read_back = service::get_object_group(&store, &meta, &user, group.id.as_str()).unwrap();
    assert_eq!(read_back.head_id, second.id);
}
