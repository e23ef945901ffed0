//! Delete handlers: the cascading removals, each guarded by referential
//! integrity against released dataset versions.
//!
//! A revision that any dataset version has frozen cannot be deleted; the
//! cascades therefore refuse to remove anything that would leave a
//! dangling reference, and the store transition is atomic: on any error
//! the store is untouched.  Deletes return the object-store locations of
//! the removed objects; the caller deletes those payloads from the object
//! store afterwards.

use vstd::prelude::*;

use crate::common::{Location, LocationView};
use crate::dataset_object_group::{ObjectView, RevisionView};
use crate::error::{ApiError, ErrorKind};
use crate::create::string_vec_contains;
use crate::dataset_model::DatasetView;
use crate::dataset_version::DatasetVersionView;
use crate::store::{has_dataset, has_revision, has_version, same_except_revisions,
    same_except_versions_and_revisions, same_outside_dataset_tree, wf, MetaStore};

verus! {

/// Keeps every id other than `vid`.
pub open spec fn keep_other(vid: Seq<char>) -> spec_fn(Seq<char>) -> bool {
    |x: Seq<char>| x != vid
}

/// `r` with `vid` removed from its reverse index.
pub open spec fn with_version_pulled(r: RevisionView, vid: Seq<char>) -> RevisionView {
    RevisionView { dataset_versions: r.dataset_versions.filter(keep_other(vid)), ..r }
}

/// The locations of the objects of revision `r`, in order.
pub open spec fn revision_locations(r: RevisionView) -> Seq<LocationView> {
    r.objects.map_values(|o: ObjectView| o.location)
}

/// Collects the object locations of the revision at `ri`.
#[verifier::loop_isolation(false)]
fn collect_revision_locations(store: &MetaStore, ri: usize) -> (locs: Vec<Location>)
    requires
        ri < store@.revisions.len(),
    ensures
        locs.deep_view() == revision_locations(store@.revisions[ri as int]),
{
    let objects = &store.revisions[ri].objects;
    let mut locs: Vec<Location> = Vec::new();
    proof {
        assert(locs.deep_view() =~= store@.revisions[ri as int].objects.take(0).map_values(
            |o: ObjectView| o.location,
        ));
    }
    let mut k: usize = 0;
    while k < objects.len()
        invariant
            k <= objects@.len(),
            objects.deep_view() == store@.revisions[ri as int].objects,
            locs.deep_view() == store@.revisions[ri as int].objects.take(k as int).map_values(
                |o: ObjectView| o.location,
            ),
        decreases objects@.len() - k,
    {
        let ghost pre = locs.deep_view();
        locs.push(objects[k].location.clone());
        proof {
            let objs = store@.revisions[ri as int].objects;
            assert(locs.deep_view() =~= pre.push(objs[k as int].location));
            assert(objs.take(k + 1).map_values(|o: ObjectView| o.location) =~= objs.take(
                k as int,
            ).map_values(|o: ObjectView| o.location).push(objs[k as int].location));
        }
        k = k + 1;
    }
    proof {
        let objs = store@.revisions[ri as int].objects;
        assert(objs.take(objs.len() as int) =~= objs);
    }
    locs
}

/// Deletes revision `id` if no dataset version has frozen it, handing
/// back the object-store locations of its objects.  A frozen revision is
/// refused with invalid-argument and the store is untouched.
#[verifier::loop_isolation(false)]
pub fn delete_object_revision(store: &mut MetaStore, id: &str) -> (r: Result<
    Vec<Location>,
    ApiError,
>)
    requires
        wf(old(store)@),
    ensures
        wf(final(store)@),
        match r {
            Ok(locs) => exists|ri: int|
                0 <= ri < old(store)@.revisions.len()
                    && (#[trigger] old(store)@.revisions[ri]).id == id@
                    && old(store)@.revisions[ri].dataset_versions.len() == 0
                    && final(store)@.revisions == old(store)@.revisions.remove(ri)
                    && locs.deep_view() == revision_locations(old(store)@.revisions[ri])
                    && same_except_revisions(old(store)@, final(store)@),
            Err(e) => {
                &&& *final(store) == *old(store)
                &&& (e.kind == ErrorKind::NotFound <==> !has_revision(old(store)@, id@))
                &&& (e.kind == ErrorKind::InvalidArgument <==> exists|ri: int|
                    0 <= ri < old(store)@.revisions.len()
                        && (#[trigger] old(store)@.revisions[ri]).id == id@
                        && old(store)@.revisions[ri].dataset_versions.len() != 0)
                &&& (e.kind == ErrorKind::NotFound || e.kind == ErrorKind::InvalidArgument)
            },
        },
{
    let ri = match store.find_revision(id) {
        None => {
            return Err(ApiError::new(ErrorKind::NotFound, "could not find requested document. type: ObjectGroupRevision"));
        },
        Some(ri) => ri,
    };
    if store.revisions[ri].dataset_versions.len() != 0 {
        proof {
            assert(store@.revisions[ri as int].id == id@);
        }
        return Err(
            ApiError::new(
                ErrorKind::InvalidArgument,
                "object group revision could not be deleted, still has associated versions",
            ),
        );
    }
    let locs = collect_revision_locations(store, ri);
    let ghost old_sv = store@;
    store.revisions.remove(ri);
    proof {
        assert(store@.revisions =~= old_sv.revisions.remove(ri as int));
        let new_sv = store@;
        let new_revs = new_sv.revisions;
        let old_revs = old_sv.revisions;
        // every surviving revision is an original one, order preserved
        assert forall|j: int| 0 <= j < new_revs.len() implies #[trigger] new_revs[j] == old_revs[
            if j < ri as int {
                j
            } else {
                j + 1
            }
        ] by {}
        assert forall|a: int, b: int|
            0 <= a < b < new_revs.len() implies (#[trigger] new_revs[a]).id
            != (#[trigger] new_revs[b]).id by {
            let a0 = if a < ri as int { a } else { a + 1 };
            let b0 = if b < ri as int { b } else { b + 1 };
            assert(new_revs[a] == old_revs[a0]);
            assert(new_revs[b] == old_revs[b0]);
        }
        assert forall|i: int, k: int, j: int, l: int|
            #![trigger new_revs[i].objects[k], new_revs[j].objects[l]]
            0 <= i < new_revs.len() && 0 <= k < new_revs[i].objects.len() && 0 <= j
                < new_revs.len() && 0 <= l < new_revs[j].objects.len() && (i != j || k != l)
            implies new_revs[i].objects[k].id != new_revs[j].objects[l].id by {
            let i0 = if i < ri as int { i } else { i + 1 };
            let j0 = if j < ri as int { j } else { j + 1 };
            assert(new_revs[i] == old_revs[i0]);
            assert(new_revs[j] == old_revs[j0]);
            assert(old_revs[i0].objects[k].id != old_revs[j0].objects[l].id);
        }
        assert forall|g: int, r2: int|
            #![trigger new_sv.object_groups[g], new_revs[r2]]
            0 <= g < new_sv.object_groups.len() && 0 <= r2 < new_revs.len()
                && new_revs[r2].object_group_id == new_sv.object_groups[g].id implies 0 <= new_revs[
            r2
        ].revision < new_sv.object_groups[g].revision_counter && new_revs[r2].dataset_id
            == new_sv.object_groups[g].dataset_id by {
            let r0 = if r2 < ri as int { r2 } else { r2 + 1 };
            assert(new_revs[r2] == old_revs[r0]);
            assert(old_revs[r0].object_group_id == old_sv.object_groups[g].id);
        }
        assert forall|r2: int| 0 <= r2 < new_revs.len() implies crate::store::group_named(
            new_sv.object_groups,
            (#[trigger] new_revs[r2]).object_group_id,
        ) by {
            let r0 = if r2 < ri as int { r2 } else { r2 + 1 };
            assert(new_revs[r2] == old_revs[r0]);
            assert(crate::store::group_named(
                old_sv.object_groups,
                old_revs[r0].object_group_id,
            ));
        }
        assert forall|a: int, b: int|
            #![trigger new_revs[a], new_revs[b]]
            0 <= a < b < new_revs.len() && new_revs[a].object_group_id
                == new_revs[b].object_group_id implies new_revs[a].revision < new_revs[b].revision
            by {
            let a0 = if a < ri as int { a } else { a + 1 };
            let b0 = if b < ri as int { b } else { b + 1 };
            assert(new_revs[a] == old_revs[a0]);
            assert(new_revs[b] == old_revs[b0]);
        }
        // no dataset version froze the removed revision, so links survive
        assert forall|v2: int, k2: int|
            0 <= v2 < new_sv.dataset_versions.len() && 0 <= k2
                < new_sv.dataset_versions[v2].object_group_ids.len()
            implies #[trigger] crate::store::version_link_at(
            new_revs,
            new_sv.dataset_versions,
            v2,
            k2,
        ) by {
            assert(crate::store::version_link_at(old_revs, old_sv.dataset_versions, v2, k2));
            let rw = choose|rw: int|
                0 <= rw < old_revs.len() && (#[trigger] old_revs[rw]).id
                    == old_sv.dataset_versions[v2].object_group_ids[k2]
                    && old_revs[rw].dataset_versions.contains(old_sv.dataset_versions[v2].id);
            if rw == ri as int {
                assert(old_revs[rw].dataset_versions.len() == 0);
                assert(false);
            }
            let rn = if rw < ri as int { rw } else { rw - 1 };
            assert(new_revs[rn] == old_revs[rw]);
        }
        assert forall|r2: int, k2: int|
            0 <= r2 < new_revs.len() && 0 <= k2 < new_revs[r2].dataset_versions.len()
            implies #[trigger] crate::store::revision_link_at(
            new_revs,
            new_sv.dataset_versions,
            r2,
            k2,
        ) by {
            let r0 = if r2 < ri as int { r2 } else { r2 + 1 };
            assert(new_revs[r2] == old_revs[r0]);
            assert(crate::store::revision_link_at(old_revs, old_sv.dataset_versions, r0, k2));
            let vw = choose|vw: int|
                0 <= vw < old_sv.dataset_versions.len()
                    && (#[trigger] old_sv.dataset_versions[vw]).id
                    == old_revs[r0].dataset_versions[k2]
                    && old_sv.dataset_versions[vw].object_group_ids.contains(old_revs[r0].id);
            assert(new_sv.dataset_versions[vw] == old_sv.dataset_versions[vw]);
        }
        assert(wf(new_sv));
        assert(same_except_revisions(old_sv, new_sv));
    }
    Ok(locs)
}

/// Builds a copy of `dv` with every entry equal to `vid` removed.
#[verifier::loop_isolation(false)]
fn remove_version_id(dv: &Vec<String>, vid: &str) -> (r: Vec<String>)
    ensures
        r.deep_view() == dv.deep_view().filter(keep_other(vid@)),
{
    let ghost pred = keep_other(vid@);
    let wanted: String = vid.to_owned();
    let mut out: Vec<String> = Vec::new();
    proof {
        assert(out.deep_view() =~= dv.deep_view().take(0).filter(pred));
    }
    let mut i: usize = 0;
    while i < dv.len()
        invariant
            i <= dv@.len(),
            wanted@ == vid@,
            out.deep_view() == dv.deep_view().take(i as int).filter(pred),
        decreases dv@.len() - i,
    {
        let ghost pre = out.deep_view();
        let keep = !(dv[i] == wanted);
        if keep {
            out.push(dv[i].clone());
        }
        proof {
            assert(dv.deep_view().take(i + 1) =~= dv.deep_view().take(i as int).push(
                dv.deep_view()[i as int],
            ));
            crate::read::lemma_filter_push(
                dv.deep_view().take(i as int),
                dv.deep_view()[i as int],
                pred,
            );
            if keep {
                assert(out.deep_view() =~= pre.push(dv.deep_view()[i as int]));
            } else {
                assert(dv.deep_view()[i as int] == vid@);
            }
        }
        i = i + 1;
    }
    proof {
        assert(dv.deep_view().take(dv.deep_view().len() as int) =~= dv.deep_view());
    }
    out
}

/// Deletes dataset version `id`: its entry is removed and its id is
/// pulled from every revision's reverse index, so the revisions it froze
/// become deletable again.
#[verifier::loop_isolation(false)]
pub fn delete_dataset_version(store: &mut MetaStore, id: &str) -> (r: Result<(), ApiError>)
    requires
        wf(old(store)@),
    ensures
        wf(final(store)@),
        match r {
            Ok(()) => {
                &&& (exists|vi: int|
                    0 <= vi < old(store)@.dataset_versions.len()
                        && (#[trigger] old(store)@.dataset_versions[vi]).id == id@
                        && final(store)@.dataset_versions == old(store)@.dataset_versions.remove(
                        vi,
                    ))
                &&& final(store)@.revisions.len() == old(store)@.revisions.len()
                &&& (forall|i: int|
                    0 <= i < old(store)@.revisions.len() ==> #[trigger] final(store)@.revisions[i]
                        == with_version_pulled(old(store)@.revisions[i], id@))
                &&& same_except_versions_and_revisions(old(store)@, final(store)@)
            },
            Err(e) => {
                &&& *final(store) == *old(store)
                &&& e.kind == ErrorKind::NotFound
                &&& !has_version(old(store)@, id@)
            },
        },
{
    let vi = match store.find_dataset_version(id) {
        None => {
            return Err(
                ApiError::new(ErrorKind::NotFound, "could not find requested document. type: DatasetVersion"),
            );
        },
        Some(vi) => vi,
    };
    let ghost old_sv = store@;
    store.dataset_versions.remove(vi);
    proof {
        assert(store@.dataset_versions =~= old_sv.dataset_versions.remove(vi as int));
    }
    let ghost mid_versions = store@.dataset_versions;
    let mut ri: usize = 0;
    while ri < store.revisions.len()
        invariant
            ri <= store@.revisions.len(),
            store@.revisions.len() == old_sv.revisions.len(),
            store@.dataset_versions == mid_versions,
            store@.projects == old_sv.projects,
            store@.datasets == old_sv.datasets,
            store@.object_groups == old_sv.object_groups,
            store@.api_tokens == old_sv.api_tokens,
            forall|i: int|
                0 <= i < ri ==> #[trigger] store@.revisions[i] == with_version_pulled(
                    old_sv.revisions[i],
                    id@,
                ),
            forall|i: int|
                ri <= i < old_sv.revisions.len() ==> #[trigger] store@.revisions[i]
                    == old_sv.revisions[i],
        decreases store@.revisions.len() - ri,
    {
        let newdv = remove_version_id(&store.revisions[ri].dataset_versions, id);
        let mut upd = store.revisions[ri].clone();
        upd.dataset_versions = newdv;
        let ghost upd_view = upd@;
        let ghost pre_revs = store@.revisions;
        store.revisions[ri] = upd;
        proof {
            assert(store@.revisions =~= pre_revs.update(ri as int, upd_view));
            let old_r = old_sv.revisions[ri as int];
            assert(pre_revs[ri as int] == old_r);
            assert(upd_view.dataset_versions == old_r.dataset_versions.filter(keep_other(id@)));
            assert(store@.revisions[ri as int] == with_version_pulled(old_r, id@));
        }
        ri = ri + 1;
    }
    proof {
        let new_sv = store@;
        let new_revs = new_sv.revisions;
        let old_revs = old_sv.revisions;
        let ghost pulled_pred = keep_other(id@);
        assert forall|i: int| 0 <= i < new_revs.len() implies {
            &&& (#[trigger] new_revs[i]).id == old_revs[i].id
            &&& new_revs[i].object_group_id == old_revs[i].object_group_id
            &&& new_revs[i].dataset_id == old_revs[i].dataset_id
            &&& new_revs[i].revision == old_revs[i].revision
            &&& new_revs[i].objects == old_revs[i].objects
            &&& new_revs[i].dataset_versions == old_revs[i].dataset_versions.filter(pulled_pred)
        } by {
            assert(new_revs[i] == with_version_pulled(old_revs[i], id@));
        }
        assert forall|a: int, b: int|
            0 <= a < b < new_revs.len() implies (#[trigger] new_revs[a]).id
            != (#[trigger] new_revs[b]).id by {}
        assert forall|a: int, b: int|
            0 <= a < b < new_sv.dataset_versions.len() implies (#[trigger] new_sv.dataset_versions[a]).id
            != (#[trigger] new_sv.dataset_versions[b]).id by {
            let a0 = if a < vi as int { a } else { a + 1 };
            let b0 = if b < vi as int { b } else { b + 1 };
            assert(new_sv.dataset_versions[a] == old_sv.dataset_versions[a0]);
            assert(new_sv.dataset_versions[b] == old_sv.dataset_versions[b0]);
        }
        assert forall|i: int, k: int, j: int, l: int|
            #![trigger new_revs[i].objects[k], new_revs[j].objects[l]]
            0 <= i < new_revs.len() && 0 <= k < new_revs[i].objects.len() && 0 <= j
                < new_revs.len() && 0 <= l < new_revs[j].objects.len() && (i != j || k != l)
            implies new_revs[i].objects[k].id != new_revs[j].objects[l].id by {
            assert(new_revs[i].objects == old_revs[i].objects);
            assert(new_revs[j].objects == old_revs[j].objects);
            assert(old_revs[i].objects[k].id != old_revs[j].objects[l].id);
        }
        assert forall|g: int, r2: int|
            #![trigger new_sv.object_groups[g], new_revs[r2]]
            0 <= g < new_sv.object_groups.len() && 0 <= r2 < new_revs.len()
                && new_revs[r2].object_group_id == new_sv.object_groups[g].id implies 0 <= new_revs[
            r2
        ].revision < new_sv.object_groups[g].revision_counter && new_revs[r2].dataset_id
            == new_sv.object_groups[g].dataset_id by {
            assert(old_revs[r2].object_group_id == old_sv.object_groups[g].id);
        }
        assert forall|r2: int| 0 <= r2 < new_revs.len() implies crate::store::group_named(
            new_sv.object_groups,
            (#[trigger] new_revs[r2]).object_group_id,
        ) by {
            assert(crate::store::group_named(old_sv.object_groups, old_revs[r2].object_group_id));
        }
        assert forall|a: int, b: int|
            #![trigger new_revs[a], new_revs[b]]
            0 <= a < b < new_revs.len() && new_revs[a].object_group_id
                == new_revs[b].object_group_id implies new_revs[a].revision < new_revs[b].revision
            by {
            assert(old_revs[a].object_group_id == old_revs[b].object_group_id);
        }
        assert forall|v2: int, k2: int|
            0 <= v2 < new_sv.dataset_versions.len() && 0 <= k2
                < new_sv.dataset_versions[v2].object_group_ids.len()
            implies #[trigger] crate::store::version_link_at(
            new_revs,
            new_sv.dataset_versions,
            v2,
            k2,
        ) by {
            let v0 = if v2 < vi as int { v2 } else { v2 + 1 };
            assert(new_sv.dataset_versions[v2] == old_sv.dataset_versions[v0]);
            assert(crate::store::version_link_at(old_revs, old_sv.dataset_versions, v0, k2));
            let rw = choose|rw: int|
                0 <= rw < old_revs.len() && (#[trigger] old_revs[rw]).id
                    == old_sv.dataset_versions[v0].object_group_ids[k2]
                    && old_revs[rw].dataset_versions.contains(old_sv.dataset_versions[v0].id);
            let wi = choose|wi: int|
                0 <= wi < old_revs[rw].dataset_versions.len() && old_revs[rw].dataset_versions[wi]
                    == old_sv.dataset_versions[v0].id;
            // the surviving version's id differs from the pulled one
            assert(old_sv.dataset_versions[v0].id != id@) by {
                if old_sv.dataset_versions[v0].id == id@ {
                    assert(old_sv.dataset_versions[vi as int].id == id@);
                    assert(v0 != vi as int);
                    assert(false);
                }
            }
            assert(pulled_pred(old_revs[rw].dataset_versions[wi]));
            old_revs[rw].dataset_versions.lemma_filter_contains(pulled_pred, wi);
            assert(new_revs[rw].dataset_versions.contains(old_sv.dataset_versions[v0].id));
            assert(new_revs[rw].id == old_revs[rw].id);
        }
        assert forall|r2: int, k2: int|
            0 <= r2 < new_revs.len() && 0 <= k2 < new_revs[r2].dataset_versions.len()
            implies #[trigger] crate::store::revision_link_at(
            new_revs,
            new_sv.dataset_versions,
            r2,
            k2,
        ) by {
            let entry = new_revs[r2].dataset_versions[k2];
            crate::read::lemma_filter_sub(old_revs[r2].dataset_versions, pulled_pred);
            assert(old_revs[r2].dataset_versions.contains(entry));
            let k0 = choose|k0: int|
                0 <= k0 < old_revs[r2].dataset_versions.len() && old_revs[r2].dataset_versions[k0]
                    == entry;
            assert(crate::store::revision_link_at(old_revs, old_sv.dataset_versions, r2, k0));
            let vw = choose|vw: int|
                0 <= vw < old_sv.dataset_versions.len()
                    && (#[trigger] old_sv.dataset_versions[vw]).id
                    == old_revs[r2].dataset_versions[k0]
                    && old_sv.dataset_versions[vw].object_group_ids.contains(old_revs[r2].id);
            // the filter kept the entry, so it is not the removed id
            assert(pulled_pred(entry)) by {
                old_revs[r2].dataset_versions.lemma_filter_pred(pulled_pred, k2);
            }
            assert(vw != vi as int);
            let vn = if vw < vi as int { vw } else { vw - 1 };
            assert(new_sv.dataset_versions[vn] == old_sv.dataset_versions[vw]);
            assert(new_revs[r2].id == old_revs[r2].id);
        }
        assert(wf(new_sv));
        assert(same_except_versions_and_revisions(old_sv, new_sv));
    }
    Ok(())
}


/// Keeps every group other than `gid`.
pub open spec fn other_group(gid: Seq<char>) -> spec_fn(crate::dataset_object_group::ObjectGroupView) -> bool {
    |g: crate::dataset_object_group::ObjectGroupView| g.id != gid
}

/// Keeps every revision outside group `gid`.
pub open spec fn outside_group(gid: Seq<char>) -> spec_fn(RevisionView) -> bool {
    |rv: RevisionView| rv.object_group_id != gid
}

/// Deletes object group `id` and all its revisions, handing back the
/// object-store locations of every removed object.  If any revision of
/// the group is frozen by a dataset version the whole delete is refused
/// with invalid-argument and the store is untouched.
#[verifier::rlimit(80)]
#[verifier::loop_isolation(false)]
pub fn delete_object_group(store: &mut MetaStore, id: &str) -> (r: Result<Vec<Location>, ApiError>)
    requires
        wf(old(store)@),
    ensures
        wf(final(store)@),
        match r {
            Ok(locs) => {
                &&& crate::store::has_group(old(store)@, id@)
                &&& (forall|r2: int|
                    0 <= r2 < old(store)@.revisions.len()
                        && (#[trigger] old(store)@.revisions[r2]).object_group_id == id@
                        ==> old(store)@.revisions[r2].dataset_versions.len() == 0)
                &&& final(store)@.object_groups == old(store)@.object_groups.filter(
                    other_group(id@),
                )
                &&& final(store)@.revisions == old(store)@.revisions.filter(outside_group(id@))
                &&& crate::store::same_except_groups_and_revisions(old(store)@, final(store)@)
                &&& (forall|li: int|
                    0 <= li < locs.deep_view().len() ==> exists|r2: int, k2: int|
                        #![trigger old(store)@.revisions[r2].objects[k2]]
                        0 <= r2 < old(store)@.revisions.len()
                            && old(store)@.revisions[r2].object_group_id == id@ && 0 <= k2
                            < old(store)@.revisions[r2].objects.len()
                            && #[trigger] locs.deep_view()[li]
                            == old(store)@.revisions[r2].objects[k2].location)
                &&& (forall|r2: int, k2: int|
                    #![trigger old(store)@.revisions[r2].objects[k2]]
                    0 <= r2 < old(store)@.revisions.len()
                        && old(store)@.revisions[r2].object_group_id == id@ && 0 <= k2
                        < old(store)@.revisions[r2].objects.len() ==> locs.deep_view().contains(
                        old(store)@.revisions[r2].objects[k2].location,
                    ))
            },
            Err(e) => {
                &&& *final(store) == *old(store)
                &&& (e.kind == ErrorKind::NotFound <==> !crate::store::has_group(
                    old(store)@,
                    id@,
                ))
                &&& (e.kind == ErrorKind::InvalidArgument <==> exists|r2: int|
                    0 <= r2 < old(store)@.revisions.len()
                        && (#[trigger] old(store)@.revisions[r2]).object_group_id == id@
                        && old(store)@.revisions[r2].dataset_versions.len() != 0)
                &&& (e.kind == ErrorKind::NotFound || e.kind == ErrorKind::InvalidArgument)
            },
        },
{
    let gi = match store.find_object_group(id) {
        None => {
            return Err(
                ApiError::new(ErrorKind::NotFound, "could not find requested document. type: ObjectGroup"),
            );
        },
        Some(gi) => gi,
    };
    let wanted: String = id.to_owned();
    // refuse the delete if any revision of the group is frozen
    let mut c: usize = 0;
    while c < store.revisions.len()
        invariant
            c <= store@.revisions.len(),
            wanted@ == id@,
            forall|j: int|
                0 <= j < c ==> !((#[trigger] store@.revisions[j]).object_group_id == id@
                    && store@.revisions[j].dataset_versions.len() != 0),
        decreases store@.revisions.len() - c,
    {
        if store.revisions[c].object_group_id == wanted && store.revisions[c].dataset_versions.len()
            != 0 {
            proof {
                assert(store@.revisions[c as int].object_group_id == id@);
            }
            return Err(
                ApiError::new(
                    ErrorKind::InvalidArgument,
                    "object group could not be deleted, a revision still has associated versions",
                ),
            );
        }
        c = c + 1;
    }
    let ghost old_sv = store@;
    let ghost pred = outside_group(id@);
    // rebuild the revision collection and gather removed locations
    let mut new_revs: Vec<crate::dataset_object_group::ObjectGroupRevision> = Vec::new();
    let mut locs: Vec<Location> = Vec::new();
    let ghost mut idxs: Seq<int> = Seq::<int>::empty();
    proof {
        assert(new_revs.deep_view() =~= old_sv.revisions.take(0).filter(pred));
    }
    let mut i: usize = 0;
    while i < store.revisions.len()
        invariant
            i <= store@.revisions.len(),
            *store == *old(store),
            wanted@ == id@,
            new_revs.deep_view() == old_sv.revisions.take(i as int).filter(pred),
            idxs.len() == new_revs.deep_view().len(),
            forall|a: int|
                0 <= a < idxs.len() ==> 0 <= #[trigger] idxs[a] < i && new_revs.deep_view()[a]
                    == old_sv.revisions[idxs[a]],
            forall|a: int, b: int| 0 <= a < b < idxs.len() ==> #[trigger] idxs[a] < #[trigger] idxs[b],
            forall|j: int|
                0 <= j < i && (#[trigger] old_sv.revisions[j]).object_group_id != id@
                    ==> exists|a: int| 0 <= a < idxs.len() && #[trigger] idxs[a] == j,
            forall|li: int|
                0 <= li < locs.deep_view().len() ==> exists|r2: int, k2: int|
                    #![trigger old_sv.revisions[r2].objects[k2]]
                    0 <= r2 < i && old_sv.revisions[r2].object_group_id == id@ && 0 <= k2
                        < old_sv.revisions[r2].objects.len() && #[trigger] locs.deep_view()[li]
                        == old_sv.revisions[r2].objects[k2].location,
            forall|r2: int, k2: int|
                #![trigger old_sv.revisions[r2].objects[k2]]
                0 <= r2 < i && old_sv.revisions[r2].object_group_id == id@ && 0 <= k2
                    < old_sv.revisions[r2].objects.len() ==> locs.deep_view().contains(
                    old_sv.revisions[r2].objects[k2].location,
                ),
        decreases store@.revisions.len() - i,
    {
        let ghost pre = new_revs.deep_view();
        let ghost pre_locs = locs.deep_view();
        let removed = store.revisions[i].object_group_id == wanted;
        if removed {
            // gather the locations of this revision's objects
            let objects = &store.revisions[i].objects;
            let mut k: usize = 0;
            while k < objects.len()
                invariant
                    k <= objects@.len(),
                    i < store@.revisions.len(),
                    objects.deep_view() == old_sv.revisions[i as int].objects,
                    old_sv.revisions[i as int].object_group_id == id@,
                    locs.deep_view().len() == pre_locs.len() + k,
                    forall|li: int|
                        0 <= li < pre_locs.len() ==> #[trigger] locs.deep_view()[li]
                            == pre_locs[li],
                    forall|li: int|
                        pre_locs.len() <= li < locs.deep_view().len()
                            ==> #[trigger] locs.deep_view()[li]
                            == old_sv.revisions[i as int].objects[li - pre_locs.len()].location,
                decreases objects@.len() - k,
            {
                let ghost lpre = locs.deep_view();
                locs.push(objects[k].location.clone());
                proof {
                    assert(locs.deep_view() =~= lpre.push(
                        old_sv.revisions[i as int].objects[k as int].location,
                    ));
                }
                k = k + 1;
            }
        } else {
            new_revs.push(store.revisions[i].clone());
            proof {
                assert(new_revs.deep_view() =~= pre.push(old_sv.revisions[i as int]));
            }
        }
        proof {
            assert(old_sv.revisions.take(i + 1) =~= old_sv.revisions.take(i as int).push(
                old_sv.revisions[i as int],
            ));
            crate::read::lemma_filter_push(
                old_sv.revisions.take(i as int),
                old_sv.revisions[i as int],
                pred,
            );
            if removed {
                assert(!pred(old_sv.revisions[i as int]));
                assert forall|r2: int, k2: int|
                    #![trigger old_sv.revisions[r2].objects[k2]]
                    0 <= r2 < i + 1 && old_sv.revisions[r2].object_group_id == id@ && 0 <= k2
                        < old_sv.revisions[r2].objects.len() implies locs.deep_view().contains(
                    old_sv.revisions[r2].objects[k2].location,
                ) by {
                    if r2 == i as int {
                        assert(locs.deep_view()[pre_locs.len() + k2]
                            == old_sv.revisions[r2].objects[k2].location);
                    } else {
                        assert(pre_locs.contains(old_sv.revisions[r2].objects[k2].location));
                        let w = choose|w: int|
                            0 <= w < pre_locs.len() && pre_locs[w]
                                == old_sv.revisions[r2].objects[k2].location;
                        assert(locs.deep_view()[w] == old_sv.revisions[r2].objects[k2].location);
                    }
                }
            } else {
                assert(pred(old_sv.revisions[i as int]));
                let idxs_pre = idxs;
                idxs = idxs.push(i as int);
                assert(idxs[idxs.len() - 1] == i as int);
                assert forall|j: int|
                    0 <= j < i + 1 && (#[trigger] old_sv.revisions[j]).object_group_id != id@
                    implies exists|a: int| 0 <= a < idxs.len() && #[trigger] idxs[a] == j by {
                    if j == i as int {
                        assert(idxs[idxs.len() - 1] == j);
                    } else {
                        let a = choose|a: int|
                            0 <= a < idxs_pre.len() && #[trigger] idxs_pre[a] == j;
                        assert(idxs[a] == j);
                    }
                }
            }
        }
        i = i + 1;
    }
    proof {
        assert(old_sv.revisions.take(old_sv.revisions.len() as int) =~= old_sv.revisions);
    }
    store.object_groups.remove(gi);
    let mut swap_revs = new_revs;
    core::mem::swap(&mut store.revisions, &mut swap_revs);
    proof {
        let new_sv = store@;
        assert(new_sv.object_groups =~= old_sv.object_groups.remove(gi as int));
        assert(new_sv.revisions == old_sv.revisions.filter(pred));
        // the removed group is the only one with this id
        assert(new_sv.object_groups =~= old_sv.object_groups.filter(other_group(id@))) by {
            assert forall|g2: int|
                0 <= g2 < old_sv.object_groups.len() && g2 != gi as int
                implies (#[trigger] old_sv.object_groups[g2]).id != id@ by {
                assert(old_sv.object_groups[gi as int].id == id@);
            }
            crate::read::lemma_filter_sub(old_sv.object_groups, other_group(id@));
            let fg = old_sv.object_groups.filter(other_group(id@));
            let rg = old_sv.object_groups.remove(gi as int);
            assert(rg.len() == old_sv.object_groups.len() - 1);
            // both drop exactly the element at gi and keep order
            assert forall|g2: int| 0 <= g2 < rg.len() implies #[trigger] rg[g2] == old_sv.object_groups[
                if g2 < gi as int {
                    g2
                } else {
                    g2 + 1
                }
            ] by {}
            lemma_filter_is_remove(old_sv.object_groups, gi as int, other_group(id@));
        }
        let new_revs_v = new_sv.revisions;
        let old_revs = old_sv.revisions;
        let new_groups = new_sv.object_groups;
        // identifiers stay unique through the monotone index map
        assert forall|a: int, b: int|
            0 <= a < b < new_revs_v.len() implies (#[trigger] new_revs_v[a]).id
            != (#[trigger] new_revs_v[b]).id by {
            assert(new_revs_v[a] == old_revs[idxs[a]]);
            assert(new_revs_v[b] == old_revs[idxs[b]]);
            assert(idxs[a] < idxs[b]);
        }
        assert forall|a: int, b: int|
            0 <= a < b < new_groups.len() implies (#[trigger] new_groups[a]).id
            != (#[trigger] new_groups[b]).id by {
            let a0 = if a < gi as int { a } else { a + 1 };
            let b0 = if b < gi as int { b } else { b + 1 };
            assert(new_groups[a] == old_sv.object_groups[a0]);
            assert(new_groups[b] == old_sv.object_groups[b0]);
        }
        assert forall|i2: int, k2: int, j2: int, l2: int|
            #![trigger new_revs_v[i2].objects[k2], new_revs_v[j2].objects[l2]]
            0 <= i2 < new_revs_v.len() && 0 <= k2 < new_revs_v[i2].objects.len() && 0 <= j2
                < new_revs_v.len() && 0 <= l2 < new_revs_v[j2].objects.len() && (i2 != j2 || k2
                != l2) implies new_revs_v[i2].objects[k2].id != new_revs_v[j2].objects[l2].id by {
            assert(new_revs_v[i2] == old_revs[idxs[i2]]);
            assert(new_revs_v[j2] == old_revs[idxs[j2]]);
            if i2 != j2 {
                if i2 < j2 {
                    assert(idxs[i2] < idxs[j2]);
                } else {
                    assert(idxs[j2] < idxs[i2]);
                }
            }
            assert(old_revs[idxs[i2]].objects[k2].id != old_revs[idxs[j2]].objects[l2].id);
        }
        assert forall|g2: int, r2: int|
            #![trigger new_groups[g2], new_revs_v[r2]]
            0 <= g2 < new_groups.len() && 0 <= r2 < new_revs_v.len()
                && new_revs_v[r2].object_group_id == new_groups[g2].id implies 0 <= new_revs_v[
            r2
        ].revision < new_groups[g2].revision_counter && new_revs_v[r2].dataset_id
            == new_groups[g2].dataset_id by {
            let g0 = if g2 < gi as int { g2 } else { g2 + 1 };
            assert(new_groups[g2] == old_sv.object_groups[g0]);
            assert(new_revs_v[r2] == old_revs[idxs[r2]]);
            assert(old_revs[idxs[r2]].object_group_id == old_sv.object_groups[g0].id);
        }
        assert forall|r2: int| 0 <= r2 < new_revs_v.len() implies crate::store::group_named(
            new_groups,
            (#[trigger] new_revs_v[r2]).object_group_id,
        ) by {
            assert(new_revs_v[r2] == old_revs[idxs[r2]]);
            assert(crate::store::group_named(
                old_sv.object_groups,
                old_revs[idxs[r2]].object_group_id,
            ));
            let gw = choose|gw: int|
                0 <= gw < old_sv.object_groups.len() && (#[trigger] old_sv.object_groups[gw]).id
                    == old_revs[idxs[r2]].object_group_id;
            assert(old_revs[idxs[r2]].object_group_id != id@);
            assert(gw != gi as int) by {
                if gw == gi as int {
                    assert(old_sv.object_groups[gi as int].id == id@);
                }
            }
            let gn = if gw < gi as int { gw } else { gw - 1 };
            assert(new_groups[gn] == old_sv.object_groups[gw]);
        }
        assert forall|a: int, b: int|
            #![trigger new_revs_v[a], new_revs_v[b]]
            0 <= a < b < new_revs_v.len() && new_revs_v[a].object_group_id
                == new_revs_v[b].object_group_id implies new_revs_v[a].revision
            < new_revs_v[b].revision by {
            assert(new_revs_v[a] == old_revs[idxs[a]]);
            assert(new_revs_v[b] == old_revs[idxs[b]]);
            assert(idxs[a] < idxs[b]);
        }
        // no dataset version froze a removed revision, so links survive
        assert forall|v2: int, k2: int|
            0 <= v2 < new_sv.dataset_versions.len() && 0 <= k2
                < new_sv.dataset_versions[v2].object_group_ids.len()
            implies #[trigger] crate::store::version_link_at(
            new_revs_v,
            new_sv.dataset_versions,
            v2,
            k2,
        ) by {
            assert(crate::store::version_link_at(old_revs, old_sv.dataset_versions, v2, k2));
            let rw = choose|rw: int|
                0 <= rw < old_revs.len() && (#[trigger] old_revs[rw]).id
                    == old_sv.dataset_versions[v2].object_group_ids[k2]
                    && old_revs[rw].dataset_versions.contains(old_sv.dataset_versions[v2].id);
            assert(old_revs[rw].dataset_versions.len() != 0);
            assert(old_revs[rw].object_group_id != id@);
            let a = choose|a: int| 0 <= a < idxs.len() && #[trigger] idxs[a] == rw;
            assert(new_revs_v[a] == old_revs[rw]);
        }
        assert forall|r2: int, k2: int|
            0 <= r2 < new_revs_v.len() && 0 <= k2 < new_revs_v[r2].dataset_versions.len()
            implies #[trigger] crate::store::revision_link_at(
            new_revs_v,
            new_sv.dataset_versions,
            r2,
            k2,
        ) by {
            assert(new_revs_v[r2] == old_revs[idxs[r2]]);
            assert(crate::store::revision_link_at(old_revs, old_sv.dataset_versions, idxs[r2], k2));
            let vw = choose|vw: int|
                0 <= vw < old_sv.dataset_versions.len()
                    && (#[trigger] old_sv.dataset_versions[vw]).id
                    == old_revs[idxs[r2]].dataset_versions[k2]
                    && old_sv.dataset_versions[vw].object_group_ids.contains(
                    old_revs[idxs[r2]].id,
                );
            assert(new_sv.dataset_versions[vw] == old_sv.dataset_versions[vw]);
        }
        assert(wf(new_sv));
        assert(crate::store::same_except_groups_and_revisions(old_sv, new_sv));
    }
    Ok(locs)
}

/// Removing the only element that fails `pred` is the same as filtering.
proof fn lemma_filter_is_remove<A>(s: Seq<A>, at: int, pred: spec_fn(A) -> bool)
    requires
        0 <= at < s.len(),
        !pred(s[at]),
        forall|i: int| 0 <= i < s.len() && i != at ==> pred(#[trigger] s[i]),
    ensures
        s.filter(pred) == s.remove(at),
    decreases s.len(),
{
    reveal(Seq::filter);
    if s.len() > 0 {
        if at == s.len() - 1 {
            assert(s.drop_last() =~= s.remove(at));
            lemma_filter_all(s.drop_last(), pred);
        } else {
            lemma_filter_is_remove(s.drop_last(), at, pred);
            assert(s.remove(at).drop_last() =~= s.drop_last().remove(at));
            assert(s.filter(pred) == s.drop_last().filter(pred).push(s.last()));
            assert(s.remove(at) =~= s.drop_last().remove(at).push(s.last()));
        }
    }
}

/// Filtering keeps everything when `pred` holds everywhere.
proof fn lemma_filter_all<A>(s: Seq<A>, pred: spec_fn(A) -> bool)
    requires
        forall|i: int| 0 <= i < s.len() ==> pred(#[trigger] s[i]),
    ensures
        s.filter(pred) == s,
    decreases s.len(),
{
    reveal(Seq::filter);
    if s.len() > 0 {
        lemma_filter_all(s.drop_last(), pred);
        assert(s =~= s.drop_last().push(s.last()));
    }
}


/// Keeps every dataset other than `did`.
pub open spec fn other_dataset(did: Seq<char>) -> spec_fn(DatasetView) -> bool {
    |d: DatasetView| d.id != did
}

/// Keeps every dataset version outside dataset `did`.
pub open spec fn other_dataset_version(did: Seq<char>) -> spec_fn(DatasetVersionView) -> bool {
    |v: DatasetVersionView| v.dataset_id != did
}

/// Keeps every object group outside dataset `did`.
pub open spec fn other_dataset_group(did: Seq<char>) -> spec_fn(
    crate::dataset_object_group::ObjectGroupView,
) -> bool {
    |g: crate::dataset_object_group::ObjectGroupView| g.dataset_id != did
}

/// Keeps every revision outside dataset `did`.
pub open spec fn other_dataset_revision(did: Seq<char>) -> spec_fn(RevisionView) -> bool {
    |rv: RevisionView| rv.dataset_id != did
}

/// Picks the dataset versions of dataset `did`.
pub open spec fn of_dataset(did: Seq<char>) -> spec_fn(DatasetVersionView) -> bool {
    |v: DatasetVersionView| v.dataset_id == did
}

/// Keeps every id that does not occur in `vids`.
pub open spec fn keep_not_in(vids: Seq<Seq<char>>) -> spec_fn(Seq<char>) -> bool {
    |x: Seq<char>| !vids.contains(x)
}

/// The ids of the dataset versions of dataset `did`, in store order.
pub open spec fn removed_version_ids(vers: Seq<DatasetVersionView>, did: Seq<char>) -> Seq<
    Seq<char>,
> {
    vers.filter(of_dataset(did)).map_values(|v: DatasetVersionView| v.id)
}

/// `r` with every id in `vids` removed from its reverse index.
pub open spec fn with_ids_pruned(r: RevisionView, vids: Seq<Seq<char>>) -> RevisionView {
    RevisionView { dataset_versions: r.dataset_versions.filter(keep_not_in(vids)), ..r }
}

/// Builds a copy of `dv` without the entries that occur in `vids`.
#[verifier::loop_isolation(false)]
fn prune_version_ids(dv: &Vec<String>, vids: &Vec<String>) -> (r: Vec<String>)
    ensures
        r.deep_view() == dv.deep_view().filter(keep_not_in(vids.deep_view())),
{
    let ghost pred = keep_not_in(vids.deep_view());
    let mut out: Vec<String> = Vec::new();
    proof {
        assert(out.deep_view() =~= dv.deep_view().take(0).filter(pred));
    }
    let mut i: usize = 0;
    while i < dv.len()
        invariant
            i <= dv@.len(),
            out.deep_view() == dv.deep_view().take(i as int).filter(pred),
        decreases dv@.len() - i,
    {
        let ghost pre = out.deep_view();
        let keep = !string_vec_contains(vids, dv[i].as_str());
        if keep {
            out.push(dv[i].clone());
        }
        proof {
            assert(dv.deep_view().take(i + 1) =~= dv.deep_view().take(i as int).push(
                dv.deep_view()[i as int],
            ));
            crate::read::lemma_filter_push(
                dv.deep_view().take(i as int),
                dv.deep_view()[i as int],
                pred,
            );
            if keep {
                assert(pred(dv.deep_view()[i as int]));
                assert(out.deep_view() =~= pre.push(dv.deep_view()[i as int]));
            } else {
                assert(!pred(dv.deep_view()[i as int]));
            }
        }
        i = i + 1;
    }
    proof {
        assert(dv.deep_view().take(dv.deep_view().len() as int) =~= dv.deep_view());
    }
    out
}

/// Deletes dataset `id` with everything it owns: its dataset versions
/// (pulling their ids from every revision), its object groups and their
/// revisions.  The object-store locations of every removed object are
/// handed back.  If a revision of the dataset is frozen by a version of a
/// different dataset, the delete is refused with invalid-argument and the
/// store is untouched.
#[verifier::rlimit(100)]
#[verifier::loop_isolation(false)]
pub fn delete_dataset(store: &mut MetaStore, id: &str) -> (r: Result<Vec<Location>, ApiError>)
    requires
        wf(old(store)@),
    ensures
        wf(final(store)@),
        match r {
            Ok(locs) => {
                &&& has_dataset(old(store)@, id@)
                &&& final(store)@.datasets == old(store)@.datasets.filter(other_dataset(id@))
                &&& final(store)@.dataset_versions == old(store)@.dataset_versions.filter(
                    other_dataset_version(id@),
                )
                &&& final(store)@.object_groups == old(store)@.object_groups.filter(
                    other_dataset_group(id@),
                )
                &&& final(store)@.revisions.len() == old(store)@.revisions.filter(
                    other_dataset_revision(id@),
                ).len()
                &&& (forall|i: int|
                    0 <= i < final(store)@.revisions.len() ==> #[trigger] final(store)@.revisions[i]
                        == with_ids_pruned(
                        old(store)@.revisions.filter(other_dataset_revision(id@))[i],
                        removed_version_ids(old(store)@.dataset_versions, id@),
                    ))
                &&& same_outside_dataset_tree(old(store)@, final(store)@)
                &&& (forall|li: int|
                    0 <= li < locs.deep_view().len() ==> exists|r2: int, k2: int|
                        #![trigger old(store)@.revisions[r2].objects[k2]]
                        0 <= r2 < old(store)@.revisions.len()
                            && old(store)@.revisions[r2].dataset_id == id@ && 0 <= k2
                            < old(store)@.revisions[r2].objects.len()
                            && #[trigger] locs.deep_view()[li]
                            == old(store)@.revisions[r2].objects[k2].location)
                &&& (forall|r2: int, k2: int|
                    #![trigger old(store)@.revisions[r2].objects[k2]]
                    0 <= r2 < old(store)@.revisions.len() && old(store)@.revisions[r2].dataset_id
                        == id@ && 0 <= k2 < old(store)@.revisions[r2].objects.len()
                        ==> locs.deep_view().contains(
                        old(store)@.revisions[r2].objects[k2].location,
                    ))
            },
            Err(e) => {
                &&& *final(store) == *old(store)
                &&& (e.kind == ErrorKind::NotFound <==> !has_dataset(old(store)@, id@))
                &&& (e.kind == ErrorKind::InvalidArgument <==> (has_dataset(old(store)@, id@)
                    && exists|r2: int, k2: int|
                    #![trigger old(store)@.revisions[r2].dataset_versions[k2]]
                    0 <= r2 < old(store)@.revisions.len() && old(store)@.revisions[r2].dataset_id
                        == id@ && 0 <= k2 < old(store)@.revisions[r2].dataset_versions.len()
                        && !removed_version_ids(old(store)@.dataset_versions, id@).contains(
                        old(store)@.revisions[r2].dataset_versions[k2],
                    )))
                &&& (e.kind == ErrorKind::NotFound || e.kind == ErrorKind::InvalidArgument)
            },
        },
{
    let di = match store.find_dataset(id) {
        None => {
            return Err(ApiError::new(ErrorKind::NotFound, "could not find requested document. type: Dataset"));
        },
        Some(di) => di,
    };
    let wanted: String = id.to_owned();
    let ghost old_sv = store@;
    let ghost vid_seq = removed_version_ids(old_sv.dataset_versions, id@);
    // the ids of the dataset's own versions
    let mut vids: Vec<String> = Vec::new();
    proof {
        assert(old_sv.dataset_versions.take(0).filter(of_dataset(id@)).map_values(
            |v: DatasetVersionView| v.id,
        ) =~= vids.deep_view());
    }
    let mut i: usize = 0;
    while i < store.dataset_versions.len()
        invariant
            i <= store@.dataset_versions.len(),
            wanted@ == id@,
            *store == *old(store),
            vids.deep_view() == old_sv.dataset_versions.take(i as int).filter(of_dataset(id@)).map_values(
                |v: DatasetVersionView| v.id,
            ),
        decreases store@.dataset_versions.len() - i,
    {
        let ghost pre = vids.deep_view();
        let matched = store.dataset_versions[i].dataset_id == wanted;
        if matched {
            vids.push(store.dataset_versions[i].id.clone());
        }
        proof {
            let vs = old_sv.dataset_versions;
            assert(vs.take(i + 1) =~= vs.take(i as int).push(vs[i as int]));
            crate::read::lemma_filter_push(vs.take(i as int), vs[i as int], of_dataset(id@));
            if matched {
                assert(of_dataset(id@)(vs[i as int]));
                assert(vids.deep_view() =~= pre.push(vs[i as int].id));
                assert(vs.take(i + 1).filter(of_dataset(id@)).map_values(
                    |v: DatasetVersionView| v.id,
                ) =~= vs.take(i as int).filter(of_dataset(id@)).map_values(
                    |v: DatasetVersionView| v.id,
                ).push(vs[i as int].id));
            } else {
                assert(!of_dataset(id@)(vs[i as int]));
            }
        }
        i = i + 1;
    }
    proof {
        assert(old_sv.dataset_versions.take(old_sv.dataset_versions.len() as int)
            =~= old_sv.dataset_versions);
        assert(vids.deep_view() == vid_seq);
    }
    // refuse the delete if a revision of this dataset is frozen by a
    // version of another dataset
    let mut c: usize = 0;
    while c < store.revisions.len()
        invariant
            c <= store@.revisions.len(),
            wanted@ == id@,
            *store == *old(store),
            vids.deep_view() == vid_seq,
            forall|r2: int, k2: int|
                #![trigger old_sv.revisions[r2].dataset_versions[k2]]
                0 <= r2 < c && old_sv.revisions[r2].dataset_id == id@ && 0 <= k2
                    < old_sv.revisions[r2].dataset_versions.len() ==> vid_seq.contains(
                    old_sv.revisions[r2].dataset_versions[k2],
                ),
        decreases store@.revisions.len() - c,
    {
        if store.revisions[c].dataset_id == wanted {
            let dv = &store.revisions[c].dataset_versions;
            let mut k: usize = 0;
            while k < dv.len()
                invariant
                    k <= dv@.len(),
                    c < store@.revisions.len(),
                    dv.deep_view() == old_sv.revisions[c as int].dataset_versions,
                    old_sv.revisions[c as int].dataset_id == id@,
                    vids.deep_view() == vid_seq,
                    forall|k2: int|
                        0 <= k2 < k ==> vid_seq.contains(
                            #[trigger] old_sv.revisions[c as int].dataset_versions[k2],
                        ),
                decreases dv@.len() - k,
            {
                if !string_vec_contains(&vids, dv[k].as_str()) {
                    proof {
                        assert(!vid_seq.contains(old_sv.revisions[c as int].dataset_versions[
                            k as int
                        ]));
                    }
                    return Err(
                        ApiError::new(
                            ErrorKind::InvalidArgument,
                            "dataset could not be deleted, a revision is frozen by a foreign dataset version",
                        ),
                    );
                }
                k = k + 1;
            }
        }
        c = c + 1;
    }
    // rebuild the four collections of the dataset tree
    let ghost vpred = other_dataset_version(id@);
    let mut new_vers: Vec<crate::dataset_version::DatasetVersion> = Vec::new();
    let ghost mut vmap: Seq<int> = Seq::<int>::empty();
    proof {
        assert(new_vers.deep_view() =~= old_sv.dataset_versions.take(0).filter(vpred));
    }
    let mut vi: usize = 0;
    while vi < store.dataset_versions.len()
        invariant
            vi <= store@.dataset_versions.len(),
            *store == *old(store),
            wanted@ == id@,
            new_vers.deep_view() == old_sv.dataset_versions.take(vi as int).filter(vpred),
            vmap.len() == new_vers.deep_view().len(),
            forall|a: int|
                0 <= a < vmap.len() ==> 0 <= #[trigger] vmap[a] < vi && new_vers.deep_view()[a]
                    == old_sv.dataset_versions[vmap[a]],
            forall|a: int, b: int| 0 <= a < b < vmap.len() ==> #[trigger] vmap[a] < #[trigger] vmap[b],
            forall|j: int|
                0 <= j < vi && (#[trigger] old_sv.dataset_versions[j]).dataset_id != id@
                    ==> exists|a: int| 0 <= a < vmap.len() && #[trigger] vmap[a] == j,
        decreases store@.dataset_versions.len() - vi,
    {
        let ghost pre = new_vers.deep_view();
        let keep = !(store.dataset_versions[vi].dataset_id == wanted);
        if keep {
            new_vers.push(store.dataset_versions[vi].clone());
        }
        proof {
            let vs = old_sv.dataset_versions;
            assert(vs.take(vi + 1) =~= vs.take(vi as int).push(vs[vi as int]));
            crate::read::lemma_filter_push(vs.take(vi as int), vs[vi as int], vpred);
            if keep {
                assert(vpred(vs[vi as int]));
                assert(new_vers.deep_view() =~= pre.push(vs[vi as int]));
                let vmap_pre = vmap;
                vmap = vmap.push(vi as int);
                assert forall|j: int|
                    0 <= j < vi + 1 && (#[trigger] vs[j]).dataset_id != id@ implies exists|a: int|
                    0 <= a < vmap.len() && #[trigger] vmap[a] == j by {
                    if j == vi as int {
                        assert(vmap[vmap.len() - 1] == j);
                    } else {
                        let a = choose|a: int| 0 <= a < vmap_pre.len() && #[trigger] vmap_pre[a] == j;
                        assert(vmap[a] == j);
                    }
                }
            } else {
                assert(!vpred(vs[vi as int]));
            }
        }
        vi = vi + 1;
    }
    proof {
        assert(old_sv.dataset_versions.take(old_sv.dataset_versions.len() as int)
            =~= old_sv.dataset_versions);
    }
    let ghost gpred = other_dataset_group(id@);
    let mut new_groups: Vec<crate::dataset_object_group::ObjectGroup> = Vec::new();
    let ghost mut gmap: Seq<int> = Seq::<int>::empty();
    proof {
        assert(new_groups.deep_view() =~= old_sv.object_groups.take(0).filter(gpred));
    }
    let mut gi: usize = 0;
    while gi < store.object_groups.len()
        invariant
            gi <= store@.object_groups.len(),
            *store == *old(store),
            wanted@ == id@,
            new_groups.deep_view() == old_sv.object_groups.take(gi as int).filter(gpred),
            gmap.len() == new_groups.deep_view().len(),
            forall|a: int|
                0 <= a < gmap.len() ==> 0 <= #[trigger] gmap[a] < gi && new_groups.deep_view()[a]
                    == old_sv.object_groups[gmap[a]],
            forall|a: int, b: int| 0 <= a < b < gmap.len() ==> #[trigger] gmap[a] < #[trigger] gmap[b],
            forall|j: int|
                0 <= j < gi && (#[trigger] old_sv.object_groups[j]).dataset_id != id@
                    ==> exists|a: int| 0 <= a < gmap.len() && #[trigger] gmap[a] == j,
        decreases store@.object_groups.len() - gi,
    {
        let ghost pre = new_groups.deep_view();
        let keep = !(store.object_groups[gi].dataset_id == wanted);
        if keep {
            new_groups.push(store.object_groups[gi].clone());
        }
        proof {
            let gs = old_sv.object_groups;
            assert(gs.take(gi + 1) =~= gs.take(gi as int).push(gs[gi as int]));
            crate::read::lemma_filter_push(gs.take(gi as int), gs[gi as int], gpred);
            if keep {
                assert(gpred(gs[gi as int]));
                assert(new_groups.deep_view() =~= pre.push(gs[gi as int]));
                let gmap_pre = gmap;
                gmap = gmap.push(gi as int);
                assert forall|j: int|
                    0 <= j < gi + 1 && (#[trigger] gs[j]).dataset_id != id@ implies exists|a: int|
                    0 <= a < gmap.len() && #[trigger] gmap[a] == j by {
                    if j == gi as int {
                        assert(gmap[gmap.len() - 1] == j);
                    } else {
                        let a = choose|a: int| 0 <= a < gmap_pre.len() && #[trigger] gmap_pre[a] == j;
                        assert(gmap[a] == j);
                    }
                }
            } else {
                assert(!gpred(gs[gi as int]));
            }
        }
        gi = gi + 1;
    }
    proof {
        assert(old_sv.object_groups.take(old_sv.object_groups.len() as int)
            =~= old_sv.object_groups);
    }
    // revisions: drop those of the dataset, prune removed version ids
    // from the rest, and gather the removed objects' locations
    let ghost rpred = other_dataset_revision(id@);
    let mut new_revs: Vec<crate::dataset_object_group::ObjectGroupRevision> = Vec::new();
    let mut locs: Vec<Location> = Vec::new();
    let ghost mut rmap: Seq<int> = Seq::<int>::empty();
    proof {
        assert(old_sv.revisions.take(0).filter(rpred) =~= Seq::<RevisionView>::empty());
        assert(new_revs.deep_view() =~= Seq::<RevisionView>::empty());
    }
    let mut ri: usize = 0;
    while ri < store.revisions.len()
        invariant
            ri <= store@.revisions.len(),
            *store == *old(store),
            wanted@ == id@,
            vids.deep_view() == vid_seq,
            new_revs.deep_view().len() == old_sv.revisions.take(ri as int).filter(rpred).len(),
            forall|a: int|
                0 <= a < new_revs.deep_view().len() ==> #[trigger] new_revs.deep_view()[a]
                    == with_ids_pruned(
                    old_sv.revisions.take(ri as int).filter(rpred)[a],
                    vid_seq,
                ),
            rmap.len() == new_revs.deep_view().len(),
            forall|a: int|
                0 <= a < rmap.len() ==> 0 <= #[trigger] rmap[a] < ri && new_revs.deep_view()[a]
                    == with_ids_pruned(old_sv.revisions[rmap[a]], vid_seq)
                    && old_sv.revisions[rmap[a]].dataset_id != id@,
            forall|a: int, b: int| 0 <= a < b < rmap.len() ==> #[trigger] rmap[a] < #[trigger] rmap[b],
            forall|j: int|
                0 <= j < ri && (#[trigger] old_sv.revisions[j]).dataset_id != id@ ==> exists|
                    a: int,
                | 0 <= a < rmap.len() && #[trigger] rmap[a] == j,
            forall|li: int|
                0 <= li < locs.deep_view().len() ==> exists|r2: int, k2: int|
                    #![trigger old_sv.revisions[r2].objects[k2]]
                    0 <= r2 < ri && old_sv.revisions[r2].dataset_id == id@ && 0 <= k2
                        < old_sv.revisions[r2].objects.len() && #[trigger] locs.deep_view()[li]
                        == old_sv.revisions[r2].objects[k2].location,
            forall|r2: int, k2: int|
                #![trigger old_sv.revisions[r2].objects[k2]]
                0 <= r2 < ri && old_sv.revisions[r2].dataset_id == id@ && 0 <= k2
                    < old_sv.revisions[r2].objects.len() ==> locs.deep_view().contains(
                    old_sv.revisions[r2].objects[k2].location,
                ),
        decreases store@.revisions.len() - ri,
    {
        let ghost pre = new_revs.deep_view();
        let ghost pre_locs = locs.deep_view();
        let removed = store.revisions[ri].dataset_id == wanted;
        if removed {
            let objects = &store.revisions[ri].objects;
            let mut k: usize = 0;
            while k < objects.len()
                invariant
                    k <= objects@.len(),
                    ri < store@.revisions.len(),
                    objects.deep_view() == old_sv.revisions[ri as int].objects,
                    old_sv.revisions[ri as int].dataset_id == id@,
                    locs.deep_view().len() == pre_locs.len() + k,
                    forall|li: int|
                        0 <= li < pre_locs.len() ==> #[trigger] locs.deep_view()[li]
                            == pre_locs[li],
                    forall|li: int|
                        pre_locs.len() <= li < locs.deep_view().len()
                            ==> #[trigger] locs.deep_view()[li]
                            == old_sv.revisions[ri as int].objects[li - pre_locs.len()].location,
                decreases objects@.len() - k,
            {
                let ghost lpre = locs.deep_view();
                locs.push(objects[k].location.clone());
                proof {
                    assert(locs.deep_view() =~= lpre.push(
                        old_sv.revisions[ri as int].objects[k as int].location,
                    ));
                }
                k = k + 1;
            }
        } else {
            let pruned = prune_version_ids(&store.revisions[ri].dataset_versions, &vids);
            let mut upd = store.revisions[ri].clone();
            upd.dataset_versions = pruned;
            proof {
                assert(store@.revisions[ri as int] == old_sv.revisions[ri as int]);
                assert(upd@ == with_ids_pruned(old_sv.revisions[ri as int], vid_seq));
            }
            new_revs.push(upd);
        }
        proof {
            let rs = old_sv.revisions;
            assert(rs.take(ri + 1) =~= rs.take(ri as int).push(rs[ri as int]));
            crate::read::lemma_filter_push(rs.take(ri as int), rs[ri as int], rpred);
            if removed {
                assert(!rpred(rs[ri as int]));
                assert forall|r2: int, k2: int|
                    #![trigger old_sv.revisions[r2].objects[k2]]
                    0 <= r2 < ri + 1 && old_sv.revisions[r2].dataset_id == id@ && 0 <= k2
                        < old_sv.revisions[r2].objects.len() implies locs.deep_view().contains(
                    old_sv.revisions[r2].objects[k2].location,
                ) by {
                    if r2 == ri as int {
                        assert(locs.deep_view()[pre_locs.len() + k2]
                            == old_sv.revisions[r2].objects[k2].location);
                    } else {
                        assert(pre_locs.contains(old_sv.revisions[r2].objects[k2].location));
                        let w = choose|w: int|
                            0 <= w < pre_locs.len() && pre_locs[w]
                                == old_sv.revisions[r2].objects[k2].location;
                        assert(locs.deep_view()[w] == old_sv.revisions[r2].objects[k2].location);
                    }
                }
            } else {
                assert(rpred(rs[ri as int]));
                assert(new_revs.deep_view() =~= pre.push(with_ids_pruned(rs[ri as int], vid_seq)));
                let rmap_pre = rmap;
                rmap = rmap.push(ri as int);
                assert forall|j: int|
                    0 <= j < ri + 1 && (#[trigger] rs[j]).dataset_id != id@ implies exists|a: int|
                    0 <= a < rmap.len() && #[trigger] rmap[a] == j by {
                    if j == ri as int {
                        assert(rmap[rmap.len() - 1] == j);
                    } else {
                        let a = choose|a: int| 0 <= a < rmap_pre.len() && #[trigger] rmap_pre[a] == j;
                        assert(rmap[a] == j);
                    }
                }
            }
        }
        ri = ri + 1;
    }
    proof {
        assert(old_sv.revisions.take(old_sv.revisions.len() as int) =~= old_sv.revisions);
    }
    // install the rebuilt collections
    store.datasets.remove(di);
    let mut swap_vers = new_vers;
    core::mem::swap(&mut store.dataset_versions, &mut swap_vers);
    let mut swap_groups = new_groups;
    core::mem::swap(&mut store.object_groups, &mut swap_groups);
    let mut swap_revs = new_revs;
    core::mem::swap(&mut store.revisions, &mut swap_revs);
    proof {
        let new_sv = store@;
        assert(new_sv.datasets =~= old_sv.datasets.remove(di as int));
        assert(new_sv.datasets =~= old_sv.datasets.filter(other_dataset(id@))) by {
            assert forall|d2: int|
                0 <= d2 < old_sv.datasets.len() && d2 != di as int
                implies (#[trigger] old_sv.datasets[d2]).id != id@ by {
                assert(old_sv.datasets[di as int].id == id@);
            }
            lemma_filter_is_remove(old_sv.datasets, di as int, other_dataset(id@));
        }
        let new_revs_v = new_sv.revisions;
        let old_revs = old_sv.revisions;
        let new_groups_v = new_sv.object_groups;
        let new_vers_v = new_sv.dataset_versions;
        assert forall|a: int, b: int|
            0 <= a < b < new_sv.datasets.len() implies (#[trigger] new_sv.datasets[a]).id
            != (#[trigger] new_sv.datasets[b]).id by {
            let a0 = if a < di as int { a } else { a + 1 };
            let b0 = if b < di as int { b } else { b + 1 };
            assert(new_sv.datasets[a] == old_sv.datasets[a0]);
            assert(new_sv.datasets[b] == old_sv.datasets[b0]);
        }
        assert forall|a: int, b: int|
            0 <= a < b < new_vers_v.len() implies (#[trigger] new_vers_v[a]).id
            != (#[trigger] new_vers_v[b]).id by {
            assert(new_vers_v[a] == old_sv.dataset_versions[vmap[a]]);
            assert(new_vers_v[b] == old_sv.dataset_versions[vmap[b]]);
            assert(vmap[a] < vmap[b]);
        }
        assert forall|a: int, b: int|
            0 <= a < b < new_groups_v.len() implies (#[trigger] new_groups_v[a]).id
            != (#[trigger] new_groups_v[b]).id by {
            assert(new_groups_v[a] == old_sv.object_groups[gmap[a]]);
            assert(new_groups_v[b] == old_sv.object_groups[gmap[b]]);
            assert(gmap[a] < gmap[b]);
        }
        assert forall|a: int, b: int|
            0 <= a < b < new_revs_v.len() implies (#[trigger] new_revs_v[a]).id
            != (#[trigger] new_revs_v[b]).id by {
            assert(new_revs_v[a] == with_ids_pruned(old_revs[rmap[a]], vid_seq));
            assert(new_revs_v[b] == with_ids_pruned(old_revs[rmap[b]], vid_seq));
            assert(rmap[a] < rmap[b]);
            assert(old_revs[rmap[a]].id != old_revs[rmap[b]].id);
        }
        assert forall|i2: int, k2: int, j2: int, l2: int|
            #![trigger new_revs_v[i2].objects[k2], new_revs_v[j2].objects[l2]]
            0 <= i2 < new_revs_v.len() && 0 <= k2 < new_revs_v[i2].objects.len() && 0 <= j2
                < new_revs_v.len() && 0 <= l2 < new_revs_v[j2].objects.len() && (i2 != j2 || k2
                != l2) implies new_revs_v[i2].objects[k2].id != new_revs_v[j2].objects[l2].id by {
            assert(new_revs_v[i2] == with_ids_pruned(old_revs[rmap[i2]], vid_seq));
            assert(new_revs_v[j2] == with_ids_pruned(old_revs[rmap[j2]], vid_seq));
            assert(new_revs_v[i2].objects == old_revs[rmap[i2]].objects);
            assert(new_revs_v[j2].objects == old_revs[rmap[j2]].objects);
            if i2 != j2 {
                if i2 < j2 {
                    assert(rmap[i2] < rmap[j2]);
                } else {
                    assert(rmap[j2] < rmap[i2]);
                }
            }
            assert(old_revs[rmap[i2]].objects[k2].id != old_revs[rmap[j2]].objects[l2].id);
        }
        assert forall|g2: int, r2: int|
            #![trigger new_groups_v[g2], new_revs_v[r2]]
            0 <= g2 < new_groups_v.len() && 0 <= r2 < new_revs_v.len()
                && new_revs_v[r2].object_group_id == new_groups_v[g2].id implies 0 <= new_revs_v[
            r2
        ].revision < new_groups_v[g2].revision_counter && new_revs_v[r2].dataset_id
            == new_groups_v[g2].dataset_id by {
            assert(new_groups_v[g2] == old_sv.object_groups[gmap[g2]]);
            assert(new_revs_v[r2] == with_ids_pruned(old_revs[rmap[r2]], vid_seq));
            assert(old_revs[rmap[r2]].object_group_id == old_sv.object_groups[gmap[g2]].id);
        }
        assert forall|g2: int|
            0 <= g2 < new_groups_v.len() implies (#[trigger] new_groups_v[g2]).revision_counter
            >= 0 by {
            assert(new_groups_v[g2] == old_sv.object_groups[gmap[g2]]);
        }
        assert forall|r2: int| 0 <= r2 < new_revs_v.len() implies crate::store::group_named(
            new_groups_v,
            (#[trigger] new_revs_v[r2]).object_group_id,
        ) by {
            assert(new_revs_v[r2] == with_ids_pruned(old_revs[rmap[r2]], vid_seq));
            let old_r = old_revs[rmap[r2]];
            assert(crate::store::group_named(old_sv.object_groups, old_r.object_group_id));
            let gw = choose|gw: int|
                0 <= gw < old_sv.object_groups.len() && (#[trigger] old_sv.object_groups[gw]).id
                    == old_r.object_group_id;
            // the parent group shares the revision's dataset id, so it survives
            assert(old_sv.object_groups[gw].dataset_id == old_r.dataset_id);
            assert(old_sv.object_groups[gw].dataset_id != id@);
            let a = choose|a: int| 0 <= a < gmap.len() && #[trigger] gmap[a] == gw;
            assert(new_groups_v[a] == old_sv.object_groups[gw]);
        }
        assert forall|a: int, b: int|
            #![trigger new_revs_v[a], new_revs_v[b]]
            0 <= a < b < new_revs_v.len() && new_revs_v[a].object_group_id
                == new_revs_v[b].object_group_id implies new_revs_v[a].revision
            < new_revs_v[b].revision by {
            assert(new_revs_v[a] == with_ids_pruned(old_revs[rmap[a]], vid_seq));
            assert(new_revs_v[b] == with_ids_pruned(old_revs[rmap[b]], vid_seq));
            assert(rmap[a] < rmap[b]);
            assert(old_revs[rmap[a]].object_group_id == old_revs[rmap[b]].object_group_id);
        }
        // surviving versions still link to surviving revisions
        assert forall|v2: int, k2: int|
            0 <= v2 < new_vers_v.len() && 0 <= k2 < new_vers_v[v2].object_group_ids.len()
            implies #[trigger] crate::store::version_link_at(
            new_revs_v,
            new_vers_v,
            v2,
            k2,
        ) by {
            assert(new_vers_v[v2] == old_sv.dataset_versions[vmap[v2]]);
            let old_v = old_sv.dataset_versions[vmap[v2]];
            assert(crate::store::version_link_at(old_revs, old_sv.dataset_versions, vmap[v2], k2));
            let rw = choose|rw: int|
                0 <= rw < old_revs.len() && (#[trigger] old_revs[rw]).id
                    == old_v.object_group_ids[k2] && old_revs[rw].dataset_versions.contains(
                    old_v.id,
                );
            // the surviving version's id is not among the removed ids
            assert(!vid_seq.contains(old_v.id)) by {
                if vid_seq.contains(old_v.id) {
                    let w = choose|w: int| 0 <= w < vid_seq.len() && vid_seq[w] == old_v.id;
                    crate::read::lemma_filter_sub(old_sv.dataset_versions, of_dataset(id@));
                    let fv = old_sv.dataset_versions.filter(of_dataset(id@));
                    assert(vid_seq[w] == fv[w].id);
                    assert(old_sv.dataset_versions.contains(fv[w]));
                    let w0 = choose|w0: int|
                        0 <= w0 < old_sv.dataset_versions.len() && old_sv.dataset_versions[w0]
                            == fv[w];
                    old_sv.dataset_versions.lemma_filter_pred(of_dataset(id@), w);
                    assert(fv[w].dataset_id == id@);
                    assert(old_v.dataset_id != id@);
                    assert(w0 != vmap[v2]);
                    assert(old_sv.dataset_versions[w0].id == old_sv.dataset_versions[vmap[v2]].id);
                    assert(false);
                }
            }
            // the frozen revision is not of the removed dataset
            assert(old_revs[rw].dataset_id != id@) by {
                if old_revs[rw].dataset_id == id@ {
                    let wi = choose|wi: int|
                        0 <= wi < old_revs[rw].dataset_versions.len()
                            && old_revs[rw].dataset_versions[wi] == old_v.id;
                    assert(vid_seq.contains(old_revs[rw].dataset_versions[wi]));
                    assert(false);
                }
            }
            let a = choose|a: int| 0 <= a < rmap.len() && #[trigger] rmap[a] == rw;
            assert(new_revs_v[a] == with_ids_pruned(old_revs[rw], vid_seq));
            let wi = choose|wi: int|
                0 <= wi < old_revs[rw].dataset_versions.len() && old_revs[rw].dataset_versions[wi]
                    == old_v.id;
            assert(keep_not_in(vid_seq)(old_revs[rw].dataset_versions[wi]));
            old_revs[rw].dataset_versions.lemma_filter_contains(keep_not_in(vid_seq), wi);
            assert(new_revs_v[a].dataset_versions.contains(old_v.id));
            assert(new_revs_v[a].id == old_revs[rw].id);
        }
        // surviving revisions' reverse indexes name surviving versions
        assert forall|r2: int, k2: int|
            0 <= r2 < new_revs_v.len() && 0 <= k2 < new_revs_v[r2].dataset_versions.len()
            implies #[trigger] crate::store::revision_link_at(
            new_revs_v,
            new_vers_v,
            r2,
            k2,
        ) by {
            assert(new_revs_v[r2] == with_ids_pruned(old_revs[rmap[r2]], vid_seq));
            let old_r = old_revs[rmap[r2]];
            let entry = new_revs_v[r2].dataset_versions[k2];
            old_r.dataset_versions.lemma_filter_pred(keep_not_in(vid_seq), k2);
            assert(!vid_seq.contains(entry));
            crate::read::lemma_filter_sub(old_r.dataset_versions, keep_not_in(vid_seq));
            assert(old_r.dataset_versions.contains(entry));
            let k0 = choose|k0: int|
                0 <= k0 < old_r.dataset_versions.len() && old_r.dataset_versions[k0] == entry;
            assert(crate::store::revision_link_at(
                old_revs,
                old_sv.dataset_versions,
                rmap[r2],
                k0,
            ));
            let vw = choose|vw: int|
                0 <= vw < old_sv.dataset_versions.len()
                    && (#[trigger] old_sv.dataset_versions[vw]).id == old_r.dataset_versions[k0]
                    && old_sv.dataset_versions[vw].object_group_ids.contains(old_r.id);
            // that version survives: otherwise its id would be removed
            assert(old_sv.dataset_versions[vw].dataset_id != id@) by {
                if old_sv.dataset_versions[vw].dataset_id == id@ {
                    let w0 = choose|w0: int|
                        0 <= w0 < old_sv.dataset_versions.take(
                            old_sv.dataset_versions.len() as int,
                        ).len() && old_sv.dataset_versions[w0] == old_sv.dataset_versions[vw];
                    old_sv.dataset_versions.lemma_filter_contains(of_dataset(id@), vw);
                    let fv = old_sv.dataset_versions.filter(of_dataset(id@));
                    let wf2 = choose|wf2: int|
                        0 <= wf2 < fv.len() && fv[wf2] == old_sv.dataset_versions[vw];
                    assert(vid_seq[wf2] == fv[wf2].id);
                    assert(vid_seq.contains(entry));
                    assert(false);
                }
            }
            let a = choose|a: int| 0 <= a < vmap.len() && #[trigger] vmap[a] == vw;
            assert(new_vers_v[a] == old_sv.dataset_versions[vw]);
            assert(new_revs_v[r2].id == old_r.id);
        }
        assert(wf(new_sv));
        assert(same_outside_dataset_tree(old_sv, new_sv));
    }
    Ok(locs)
}

} // verus!
