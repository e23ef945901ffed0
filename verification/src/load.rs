//! Load handlers: negotiating payload transfer for embedded objects.
//!
//! Payload bytes move between the client and the object store through
//! presigned URLs; the signing itself happens outside this crate.  What is
//! decided here is which location is signed for which object, and how a
//! multipart upload is recorded in the metadata: the object store hands
//! back an upload id, and the object keeps it while the upload is in
//! flight.  Finishing a multipart upload deliberately leaves the recorded
//! `upload_id` in place, preserving a record of the upload; readers must
//! not take a non-empty `upload_id` alone as proof of an unfinished
//! upload.

use vstd::prelude::*;

use crate::common::{Location, Status};
use crate::dataset_object_group::{DatasetObject, ObjectView, RevisionView};
use crate::error::{ApiError, ErrorKind};
use crate::store::{has_object, same_except_revisions, wf, MetaStore};

verus! {

/// `o` with its upload id replaced.
pub open spec fn with_upload_id(o: ObjectView, uid: Seq<char>) -> ObjectView {
    ObjectView { upload_id: uid, ..o }
}

/// The location to presign for uploading object `id`.
pub fn create_upload_link(store: &MetaStore, id: &str) -> (r: Result<Location, ApiError>)
    ensures
        match r {
            Ok(loc) => exists|ri: int, oi: int|
                #![trigger store@.revisions[ri].objects[oi]]
                0 <= ri < store@.revisions.len() && 0 <= oi < store@.revisions[ri].objects.len()
                    && store@.revisions[ri].objects[oi].id == id@
                    && loc@ == store@.revisions[ri].objects[oi].location,
            Err(e) => !has_object(store@, id@) && e.kind == ErrorKind::NotFound,
        },
{
    match store.find_object(id) {
        Some((ri, oi)) => {
            let loc = store.revisions[ri].objects[oi].location.clone();
            proof {
                assert(store@.revisions[ri as int].objects[oi as int].location == loc@);
            }
            Ok(loc)
        },
        None => Err(
            ApiError::new(ErrorKind::NotFound, "could not find requested document. type: Object"),
        ),
    }
}

/// The location to presign for downloading object `id`.
pub fn create_download_link(store: &MetaStore, id: &str) -> (r: Result<Location, ApiError>)
    ensures
        match r {
            Ok(loc) => exists|ri: int, oi: int|
                #![trigger store@.revisions[ri].objects[oi]]
                0 <= ri < store@.revisions.len() && 0 <= oi < store@.revisions[ri].objects.len()
                    && store@.revisions[ri].objects[oi].id == id@
                    && loc@ == store@.revisions[ri].objects[oi].location,
            Err(e) => !has_object(store@, id@) && e.kind == ErrorKind::NotFound,
        },
{
    create_upload_link(store, id)
}

/// Records the upload id the object store handed back when a multipart
/// upload for object `id` was initiated, and returns the object as it now
/// stands, its `upload_id` set.
#[verifier::loop_isolation(false)]
pub fn init_multipart_upload(store: &mut MetaStore, id: &str, upload_id: &str) -> (r: Result<
    DatasetObject,
    ApiError,
>)
    requires
        wf(old(store)@),
    ensures
        wf(final(store)@),
        match r {
            Ok(o) => {
                &&& o@.id == id@
                &&& o@.upload_id == upload_id@
                &&& exists|ri: int, oi: int|
                    #![trigger old(store)@.revisions[ri].objects[oi]]
                    0 <= ri < old(store)@.revisions.len() && 0 <= oi
                        < old(store)@.revisions[ri].objects.len()
                        && old(store)@.revisions[ri].objects[oi].id == id@ && o@
                        == with_upload_id(old(store)@.revisions[ri].objects[oi], upload_id@)
                        && final(store)@.revisions == old(store)@.revisions.update(
                        ri,
                        RevisionView {
                            objects: old(store)@.revisions[ri].objects.update(oi, o@),
                            ..old(store)@.revisions[ri]
                        },
                    )
                &&& same_except_revisions(old(store)@, final(store)@)
            },
            Err(e) => {
                &&& *final(store) == *old(store)
                &&& !has_object(old(store)@, id@)
                &&& e.kind == ErrorKind::NotFound
            },
        },
{
    let (ri, oi) = match store.find_object(id) {
        None => {
            return Err(
                ApiError::new(ErrorKind::NotFound, "could not find requested document. type: Object"),
            );
        },
        Some(pair) => pair,
    };
    let ghost old_sv = store@;
    let mut obj = store.revisions[ri].objects[oi].clone();
    obj.upload_id = upload_id.to_owned();
    let ghost obj_view = obj@;
    let mut rev = store.revisions[ri].clone();
    let ghost pre_objs = rev.objects.deep_view();
    let obj2 = obj.clone();
    rev.objects[oi] = obj2;
    let ghost rev_view = rev@;
    let ghost pre_revs = store@.revisions;
    store.revisions[ri] = rev;
    proof {
        assert(rev_view.objects =~= pre_objs.update(oi as int, obj_view));
        assert(store@.revisions =~= pre_revs.update(ri as int, rev_view));
        assert(obj_view == with_upload_id(old_sv.revisions[ri as int].objects[oi as int],
            upload_id@));
        assert(rev_view == (RevisionView {
            objects: old_sv.revisions[ri as int].objects.update(oi as int, obj_view),
            ..old_sv.revisions[ri as int]
        }));
        let new_sv = store@;
        let new_revs = new_sv.revisions;
        let old_revs = old_sv.revisions;
        assert forall|i: int| 0 <= i < new_revs.len() implies {
            &&& (#[trigger] new_revs[i]).id == old_revs[i].id
            &&& new_revs[i].object_group_id == old_revs[i].object_group_id
            &&& new_revs[i].dataset_id == old_revs[i].dataset_id
            &&& new_revs[i].revision == old_revs[i].revision
            &&& new_revs[i].dataset_versions == old_revs[i].dataset_versions
            &&& new_revs[i].objects.len() == old_revs[i].objects.len()
            &&& (forall|k: int|
                0 <= k < new_revs[i].objects.len() ==> (#[trigger] new_revs[i].objects[k]).id
                    == old_revs[i].objects[k].id)
        } by {
            if i == ri as int {
                assert(new_revs[i] == rev_view);
            } else {
                assert(new_revs[i] == old_revs[i]);
            }
        }
        assert forall|a: int, b: int|
            0 <= a < b < new_revs.len() implies (#[trigger] new_revs[a]).id
            != (#[trigger] new_revs[b]).id by {}
        assert forall|i: int, k: int, j: int, l: int|
            #![trigger new_revs[i].objects[k], new_revs[j].objects[l]]
            0 <= i < new_revs.len() && 0 <= k < new_revs[i].objects.len() && 0 <= j
                < new_revs.len() && 0 <= l < new_revs[j].objects.len() && (i != j || k != l)
            implies new_revs[i].objects[k].id != new_revs[j].objects[l].id by {
            assert(new_revs[i].objects[k].id == old_revs[i].objects[k].id);
            assert(new_revs[j].objects[l].id == old_revs[j].objects[l].id);
            assert(old_revs[i].objects[k].id != old_revs[j].objects[l].id);
        }
        assert forall|g: int, r2: int|
            #![trigger new_sv.object_groups[g], new_revs[r2]]
            0 <= g < new_sv.object_groups.len() && 0 <= r2 < new_revs.len()
                && new_revs[r2].object_group_id == new_sv.object_groups[g].id implies 0 <= new_revs[
            r2
        ].revision < new_sv.object_groups[g].revision_counter && new_revs[r2].dataset_id
            == new_sv.object_groups[g].dataset_id by {
            assert(old_revs[r2].object_group_id == old_sv.object_groups[g].id);
        }
        assert forall|r2: int| 0 <= r2 < new_revs.len() implies crate::store::group_named(
            new_sv.object_groups,
            (#[trigger] new_revs[r2]).object_group_id,
        ) by {
            assert(crate::store::group_named(old_sv.object_groups, old_revs[r2].object_group_id));
        }
        assert forall|a: int, b: int|
            #![trigger new_revs[a], new_revs[b]]
            0 <= a < b < new_revs.len() && new_revs[a].object_group_id
                == new_revs[b].object_group_id implies new_revs[a].revision < new_revs[b].revision
            by {
            assert(old_revs[a].object_group_id == old_revs[b].object_group_id);
        }
        assert forall|v2: int, k2: int|
            0 <= v2 < new_sv.dataset_versions.len() && 0 <= k2
                < new_sv.dataset_versions[v2].object_group_ids.len()
            implies #[trigger] crate::store::version_link_at(
            new_revs,
            new_sv.dataset_versions,
            v2,
            k2,
        ) by {
            assert(crate::store::version_link_at(old_revs, old_sv.dataset_versions, v2, k2));
            let rw = choose|rw: int|
                0 <= rw < old_revs.len() && (#[trigger] old_revs[rw]).id
                    == old_sv.dataset_versions[v2].object_group_ids[k2]
                    && old_revs[rw].dataset_versions.contains(old_sv.dataset_versions[v2].id);
            assert(new_revs[rw].id == old_revs[rw].id);
            assert(new_revs[rw].dataset_versions == old_revs[rw].dataset_versions);
        }
        assert forall|r2: int, k2: int|
            0 <= r2 < new_revs.len() && 0 <= k2 < new_revs[r2].dataset_versions.len()
            implies #[trigger] crate::store::revision_link_at(
            new_revs,
            new_sv.dataset_versions,
            r2,
            k2,
        ) by {
            assert(new_revs[r2].dataset_versions == old_revs[r2].dataset_versions);
            assert(crate::store::revision_link_at(old_revs, old_sv.dataset_versions, r2, k2));
            let vw = choose|vw: int|
                0 <= vw < old_sv.dataset_versions.len()
                    && (#[trigger] old_sv.dataset_versions[vw]).id
                    == old_revs[r2].dataset_versions[k2]
                    && old_sv.dataset_versions[vw].object_group_ids.contains(old_revs[r2].id);
            assert(new_sv.dataset_versions[vw] == old_sv.dataset_versions[vw]);
            assert(new_revs[r2].id == old_revs[r2].id);
        }
        assert(wf(new_sv));
        assert(same_except_revisions(old_sv, new_sv));
    }
    Ok(obj)
}

/// The presign target for one part of the multipart upload of object
/// `id`: its location and the recorded upload id.
pub fn create_multipart_upload_link(store: &MetaStore, id: &str) -> (r: Result<
    (Location, String),
    ApiError,
>)
    ensures
        match r {
            Ok((loc, uid)) => exists|ri: int, oi: int|
                #![trigger store@.revisions[ri].objects[oi]]
                0 <= ri < store@.revisions.len() && 0 <= oi < store@.revisions[ri].objects.len()
                    && store@.revisions[ri].objects[oi].id == id@
                    && loc@ == store@.revisions[ri].objects[oi].location && uid@
                    == store@.revisions[ri].objects[oi].upload_id,
            Err(e) => !has_object(store@, id@) && e.kind == ErrorKind::NotFound,
        },
{
    match store.find_object(id) {
        Some((ri, oi)) => {
            let loc = store.revisions[ri].objects[oi].location.clone();
            let uid = store.revisions[ri].objects[oi].upload_id.clone();
            proof {
                assert(store@.revisions[ri as int].objects[oi as int].location == loc@);
            }
            Ok((loc, uid))
        },
        None => Err(
            ApiError::new(ErrorKind::NotFound, "could not find requested document. type: Object"),
        ),
    }
}

/// The completion target for the multipart upload of object `id`: its
/// location and the recorded upload id.  The recorded `upload_id` is left
/// as it stands.
pub fn finish_multipart_upload(store: &MetaStore, id: &str) -> (r: Result<
    (Location, String),
    ApiError,
>)
    ensures
        match r {
            Ok((loc, uid)) => exists|ri: int, oi: int|
                #![trigger store@.revisions[ri].objects[oi]]
                0 <= ri < store@.revisions.len() && 0 <= oi < store@.revisions[ri].objects.len()
                    && store@.revisions[ri].objects[oi].id == id@
                    && loc@ == store@.revisions[ri].objects[oi].location && uid@
                    == store@.revisions[ri].objects[oi].upload_id,
            Err(e) => !has_object(store@, id@) && e.kind == ErrorKind::NotFound,
        },
{
    create_multipart_upload_link(store, id)
}

/// Marks object group `id` as `Available`: the caller's signal that every
/// object of every revision has been uploaded.
pub fn finish_object_group_upload(store: &mut MetaStore, id: &str) -> (r: Result<(), ApiError>)
    requires
        wf(old(store)@),
    ensures
        wf(final(store)@),
        r is Ok,
        final(store)@.object_groups.len() == old(store)@.object_groups.len(),
        forall|i: int|
            0 <= i < old(store)@.object_groups.len() ==> #[trigger] final(store)@.object_groups[i]
                == if old(store)@.object_groups[i].id == id@ {
                crate::update::with_status(old(store)@.object_groups[i], Status::Available)
            } else {
                old(store)@.object_groups[i]
            },
        crate::store::same_except_groups(old(store)@, final(store)@),
{
    crate::update::update_object_group_status(store, id, Status::Available)
}

} // verus!
