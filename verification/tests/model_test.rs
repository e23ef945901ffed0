//! Model-level behaviour: object keys, the positional object lookup, the
//! invariants over revision numbers, and the error carriers.

use sciobjsdb::common::Version;
use sciobjsdb::create;
use sciobjsdb::error::{ApiError, ErrorKind, InvalidError, SimpleError};
use sciobjsdb::objectstorage::{make_revision_object_location, make_storage_location};
use sciobjsdb::requests::CreateObjectRequest;
use sciobjsdb::store::MetaStore;

fn object_request(filename: &str, content_len: i64) -> CreateObjectRequest {
    CreateObjectRequest {
        filename: filename.to_string(),
        filetype: "bin".to_string(),
        content_len,
        metadata: Vec::new(),
    }
}

#[test]
fn revision_object_keys_follow_the_convention() {
    let loc = make_revision_object_location("bkt", "ds1", "obj1", "file.txt");
    assert_eq!(loc.bucket, "bkt");
    assert_eq!(loc.key, "ds1/obj1/file.txt");
    assert_eq!(loc.url, "");

    let loc4 = make_storage_location("bkt", "http://endpoint", "pr1", "ds1", "obj1", "file.txt");
    assert_eq!(loc4.key, "pr1/ds1/obj1/file.txt");
    assert_eq!(loc4.url, "http://endpoint");
}

#[test]
fn positional_lookup_returns_the_matching_object() {
    let mut store = MetaStore::new();
    let dataset = create::create_dataset(&mut store, "d", "p", Vec::new(), Vec::new()).unwrap();
    let group =
        create::create_object_group(&mut store, "g", dataset.id.as_str(), Vec::new(), Vec::new())
            .unwrap();
    let (_, revision) = create::create_revision_for_group(
        &mut store,
        group.id.as_str(),
        vec![object_request("first.bin", 1), object_request("second.bin", 2)],
        Vec::new(),
        Vec::new(),
        "bkt",
    )
    .unwrap();

    // the lookup must return the matched element, not the first of the list
    let second_id = revision.objects[1].id.clone();
    let found = store.read_object(second_id.as_str()).unwrap();
    assert_eq!(found.id, second_id);
    assert_eq!(found.filename, "second.bin");
    assert_eq!(found.content_len, 2);

    let missing = store.read_object("nope").unwrap_err();
    assert_eq!(missing.kind, ErrorKind::NotFound);
}

#[test]
fn revision_numbers_stay_below_the_counter() {
    let mut store = MetaStore::new();
    let dataset = create::create_dataset(&mut store, "d", "p", Vec::new(), Vec::new()).unwrap();
    let group =
        create::create_object_group(&mut store, "g", dataset.id.as_str(), Vec::new(), Vec::new())
            .unwrap();
    assert_eq!(group.revision_counter, 0);

    let mut last_group = group.clone();
    for expected in 0..4i64 {
        let (g2, rev) = create::create_revision_for_group(
            &mut store,
            group.id.as_str(),
            vec![object_request("f.bin", 1)],
            Vec::new(),
            Vec::new(),
            "bkt",
        )
        .unwrap();
        assert_eq!(rev.revision, expected);
        assert_eq!(g2.revision_counter, expected + 1);
        last_group = g2;
    }

    let listed = store.read_group_revisions(group.id.as_str());
    assert_eq!(listed.len(), 4);
    for (i, rev) in listed.iter().enumerate() {
        assert!(rev.revision >= 0);
        assert!(rev.revision < last_group.revision_counter);
        assert_eq!(rev.revision, i as i64);
    }
    assert!(listed.len() as i64 <= last_group.revision_counter);
}

#[test]
fn release_links_versions_and_revisions_both_ways() {
    let mut store = MetaStore::new();
    let dataset = create::create_dataset(&mut store, "d", "p", Vec::new(), Vec::new()).unwrap();
    let group =
        create::create_object_group(&mut store, "g", dataset.id.as_str(), Vec::new(), Vec::new())
            .unwrap();
    let (_, rev1) = create::create_revision_for_group(
        &mut store,
        group.id.as_str(),
        vec![object_request("f.bin", 1)],
        Vec::new(),
        Vec::new(),
        "bkt",
    )
    .unwrap();
    let (_, rev2) = create::create_revision_for_group(
        &mut store,
        group.id.as_str(),
        vec![object_request("f.bin", 1)],
        Vec::new(),
        Vec::new(),
        "bkt",
    )
    .unwrap();

    let version = create::create_dataset_version(
        &mut store,
        dataset.id.as_str(),
        Vec::new(),
        Vec::new(),
        Version::default(),
        vec![rev1.id.clone(), rev2.id.clone()],
    )
    .unwrap();

    // every frozen revision lists the version in its reverse index
    for rid in version.object_group_ids.iter() {
        let rev = store.read_revision(rid.as_str()).unwrap();
        assert!(rev.dataset_versions.iter().any(|v| v == &version.id));
    }

    // releasing over a missing revision is refused
    let err = create::create_dataset_version(
        &mut store,
        dataset.id.as_str(),
        Vec::new(),
        Vec::new(),
        Version::default(),
        vec!["missing-revision".to_string()],
    )
    .unwrap_err();
    assert_eq!(err.kind, ErrorKind::NotFound);
}

#[test]
fn frozen_revision_delete_is_refused_and_kept() {
    let mut store = MetaStore::new();
    let dataset = create::create_dataset(&mut store, "d", "p", Vec::new(), Vec::new()).unwrap();
    let group =
        create::create_object_group(&mut store, "g", dataset.id.as_str(), Vec::new(), Vec::new())
            .unwrap();
    let (_, rev) = create::create_revision_for_group(
        &mut store,
        group.id.as_str(),
        vec![object_request("f.bin", 1)],
        Vec::new(),
        Vec::new(),
        "bkt",
    )
    .unwrap();
    create::create_dataset_version(
        &mut store,
        dataset.id.as_str(),
        Vec::new(),
        Vec::new(),
        Version::default(),
        vec![rev.id.clone()],
    )
    .unwrap();

    let err = sciobjsdb::delete::delete_object_revision(&mut store, rev.id.as_str()).unwrap_err();
    assert_eq!(err.kind, ErrorKind::InvalidArgument);
    // the revision remains in the store
    assert!(store.read_revision(rev.id.as_str()).is_ok());

    // deleting a group with a frozen revision is refused too
    let err2 = sciobjsdb::delete::delete_object_group(&mut store, group.id.as_str()).unwrap_err();
    assert_eq!(err2.kind, ErrorKind::InvalidArgument);
    assert!(store.read_object_group(group.id.as_str()).is_ok());
}

#[test]
fn deleting_missing_entities_reports_not_found() {
    let mut store = MetaStore::new();
    let err = sciobjsdb::delete::delete_object_group(&mut store, "missing").unwrap_err();
    assert_eq!(err.kind, ErrorKind::NotFound);
    let err2 = sciobjsdb::delete::delete_dataset(&mut store, "missing").unwrap_err();
    assert_eq!(err2.kind, ErrorKind::NotFound);
    let err3 = sciobjsdb::delete::delete_dataset_version(&mut store, "missing").unwrap_err();
    assert_eq!(err3.kind, ErrorKind::NotFound);
    let err4 = sciobjsdb::delete::delete_object_revision(&mut store, "missing").unwrap_err();
    assert_eq!(err4.kind, ErrorKind::NotFound);
}

#[test]
fn error_carriers_keep_their_messages() {
    let invalid = InvalidError::new("bad argument");
    assert_eq!(invalid.message(), "bad argument");
    let simple = SimpleError::new("plain failure");
    assert_eq!(simple.message(), "plain failure");
    let api = ApiError::new(ErrorKind::Internal, "internal detail");
    assert_eq!(api.kind, ErrorKind::Internal);
    assert_eq!(api.message(), "internal detail");
    let unimpl = ApiError::new(ErrorKind::Unimplemented, "not implemented");
    assert_eq!(unimpl.kind, ErrorKind::Unimplemented);
}

#[test]
fn add_user_grants_both_rights_once() {
    let mut store = MetaStore::new();
    let project = create::create_project(
        &mut store,
        "p",
        "",
        Vec::new(),
        Vec::new(),
        "owner",
    )
    .unwrap();
    sciobjsdb::update::add_user_to_project(&mut store, project.id.as_str(), "newbie").unwrap();
    sciobjsdb::update::add_user_to_project(&mut store, project.id.as_str(), "newbie").unwrap();
    let read_back = store.read_project(project.id.as_str()).unwrap();
    // owner plus one entry for the new user, despite the repeated call
    assert_eq!(read_back.users.len(), 2);
    assert_eq!(read_back.users[1].user_id, "newbie");
}

#[test]
fn finishing_an_upload_makes_the_group_available() {
    let mut store = MetaStore::new();
    let dataset = create::create_dataset(&mut store, "d", "p", Vec::new(), Vec::new()).unwrap();
    let group =
        create::create_object_group(&mut store, "g", dataset.id.as_str(), Vec::new(), Vec::new())
            .unwrap();
    assert_eq!(group.status, sciobjsdb::common::Status::Initializing);

    sciobjsdb::load::finish_object_group_upload(&mut store, group.id.as_str()).unwrap();
    let read_back = store.read_object_group(group.id.as_str()).unwrap();
    assert_eq!(read_back.status, sciobjsdb::common::Status::Available);

    // finishing a missing group is a no-op, as an update matching nothing is
    sciobjsdb::load::finish_object_group_upload(&mut store, "missing").unwrap();
}
