//! Handler round trips over the metadata store, mirroring the behaviour
//! the service promises: create/read/delete for datasets, dataset
//! versions and revisions.

use sciobjsdb::common::Version;
use sciobjsdb::create;
use sciobjsdb::delete;
use sciobjsdb::error::ErrorKind;
use sciobjsdb::requests::CreateObjectRequest;
use sciobjsdb::store::MetaStore;

fn two_object_requests() -> Vec<CreateObjectRequest> {
    vec![
        CreateObjectRequest {
            filename: "testfile1.bin".to_string(),
            filetype: "bin".to_string(),
            content_len: 3,
            metadata: Vec::new(),
        },
        CreateObjectRequest {
            filename: "testfile2.bin".to_string(),
            filetype: "bin".to_string(),
            content_len: 5,
            metadata: Vec::new(),
        },
    ]
}

#[test]
fn dataset_test() {
    let mut store = MetaStore::new();
    let created_dataset =
        create::create_dataset(&mut store, "", "", Vec::new(), Vec::new()).unwrap();

    let read_dataset = store.read_dataset(created_dataset.id.as_str()).unwrap();
    assert_eq!(read_dataset.id, created_dataset.id);
    assert_eq!(read_dataset.name, created_dataset.name);
    assert_eq!(read_dataset.project_id, created_dataset.project_id);

    delete::delete_dataset(&mut store, created_dataset.id.as_str()).unwrap();

    let value = store.read_dataset(created_dataset.id.as_str()).unwrap_err();
    assert_eq!(value.kind, ErrorKind::NotFound);
}

#[test]
fn dataset_version() {
    let mut store = MetaStore::new();
    let created_dataset =
        create::create_dataset(&mut store, "", "", Vec::new(), Vec::new()).unwrap();
    let created_object_group = create::create_object_group(
        &mut store,
        "",
        created_dataset.id.as_str(),
        Vec::new(),
        Vec::new(),
    )
    .unwrap();

    let (_, inserted_revision1) = create::create_revision_for_group(
        &mut store,
        created_object_group.id.as_str(),
        two_object_requests(),
        Vec::new(),
        Vec::new(),
        "testbucket",
    )
    .unwrap();
    let (_, inserted_revision2) = create::create_revision_for_group(
        &mut store,
        created_object_group.id.as_str(),
        two_object_requests(),
        Vec::new(),
        Vec::new(),
        "testbucket",
    )
    .unwrap();

    let version = create::create_dataset_version(
        &mut store,
        created_dataset.id.as_str(),
        Vec::new(),
        Vec::new(),
        Version::default(),
        vec![inserted_revision1.id.clone(), inserted_revision2.id.clone()],
    )
    .unwrap();

    let read_version = store.read_dataset_version(version.id.as_str()).unwrap();
    assert_eq!(version.id, read_version.id);
    assert_eq!(read_version.object_group_ids.len(), 2);
    assert_eq!(read_version.object_count, 2);

    delete::delete_dataset_version(&mut store, version.id.as_str()).unwrap();

    let read_version_error = store.read_dataset_version(version.id.as_str()).unwrap_err();
    assert_eq!(read_version_error.kind, ErrorKind::NotFound);
}

#[test]
fn dataset_revision() {
    let mut store = MetaStore::new();
    let created_dataset =
        create::create_dataset(&mut store, "", "", Vec::new(), Vec::new()).unwrap();
    let created_object_group = create::create_object_group(
        &mut store,
        "",
        created_dataset.id.as_str(),
        Vec::new(),
        Vec::new(),
    )
    .unwrap();

    let (_, inserted_revision1) = create::create_revision_for_group(
        &mut store,
        created_object_group.id.as_str(),
        two_object_requests(),
        Vec::new(),
        Vec::new(),
        "testbucket",
    )
    .unwrap();
    let (_, inserted_revision2) = create::create_revision_for_group(
        &mut store,
        created_object_group.id.as_str(),
        two_object_requests(),
        Vec::new(),
        Vec::new(),
        "testbucket",
    )
    .unwrap();

    assert_eq!(inserted_revision1.objects[0].filename, "testfile1.bin");
    assert_eq!(inserted_revision1.objects[0].filetype, "bin");
    assert_eq!(inserted_revision1.objects[1].filename, "testfile2.bin");

    delete::delete_object_revision(&mut store, inserted_revision1.id.as_str()).unwrap();

    let read_revision_error = store.read_revision(inserted_revision1.id.as_str()).unwrap_err();
    assert_eq!(read_revision_error.kind, ErrorKind::NotFound);

    let read_revision = store.read_revision(inserted_revision2.id.as_str()).unwrap();
    assert_eq!(inserted_revision2.id, read_revision.id);
    assert_eq!(read_revision.objects.len(), 2);
}
