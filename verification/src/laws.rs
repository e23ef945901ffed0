//! The global guarantees of the store model, stated once and proved from
//! the invariant and the handler contracts.

use vstd::prelude::*;

use crate::dataset_object_group::RevisionView;
use crate::dataset_model::DatasetView;
use crate::delete::{other_dataset, other_group};
use crate::project_model::{project_creator_users, ProjectView};
use crate::read::{datasets_of_project, lemma_filter_push, lemma_filter_sub, project_has_user,
    revisions_of_group, user_projects};
use crate::store::{has_dataset, has_group, revision_link_at, version_link_at, wf, StoreView};

verus! {

/// In any well-formed store, every revision of a group is numbered in
/// `{0, …, revision_counter − 1}`, and the group has at most
/// `revision_counter` revisions.
pub proof fn lemma_revision_numbers_bounded(sv: StoreView, g: int)
    requires
        wf(sv),
        0 <= g < sv.object_groups.len(),
    ensures
        forall|r: int|
            0 <= r < sv.revisions.len() && (#[trigger] sv.revisions[r]).object_group_id
                == sv.object_groups[g].id ==> 0 <= sv.revisions[r].revision
                < sv.object_groups[g].revision_counter,
        revisions_of_group(sv.revisions, sv.object_groups[g].id).len()
            <= sv.object_groups[g].revision_counter,
{
    let gid = sv.object_groups[g].id;
    let f = revisions_of_group(sv.revisions, gid);
    lemma_group_revisions_sorted(sv.revisions, gid);
    lemma_filter_sub(sv.revisions, |rv: RevisionView| rv.object_group_id == gid);
    assert forall|a: int| 0 <= a < f.len() implies 0 <= (#[trigger] f[a]).revision
        < sv.object_groups[g].revision_counter by {
        sv.revisions.lemma_filter_pred(|rv: RevisionView| rv.object_group_id == gid, a);
        assert(sv.revisions.contains(f[a]));
        let i = choose|i: int| 0 <= i < sv.revisions.len() && sv.revisions[i] == f[a];
        assert(sv.revisions[i].object_group_id == sv.object_groups[g].id);
    }
    if f.len() > 0 {
        lemma_sorted_lower_bound(f, f.len() - 1);
    }
}

/// In a strictly revision-sorted sequence the `i`-th revision number is at
/// least `i`.
proof fn lemma_sorted_lower_bound(s: Seq<RevisionView>, i: int)
    requires
        forall|a: int, b: int|
            0 <= a < b < s.len() ==> (#[trigger] s[a]).revision < (#[trigger] s[b]).revision,
        forall|a: int| 0 <= a < s.len() ==> (#[trigger] s[a]).revision >= 0,
        0 <= i < s.len(),
    ensures
        s[i].revision >= i,
    decreases i,
{
    if i > 0 {
        lemma_sorted_lower_bound(s, i - 1);
        assert(s[i - 1].revision < s[i].revision);
    }
}

/// In a store whose revisions are append-ordered, the revisions of one
/// group come out of [`revisions_of_group`] in strictly increasing
/// revision order.
pub proof fn lemma_group_revisions_sorted(revs: Seq<RevisionView>, gid: Seq<char>)
    requires
        crate::store::revisions_ordered(revs),
    ensures
        forall|a: int, b: int|
            0 <= a < b < revisions_of_group(revs, gid).len()
                ==> (#[trigger] revisions_of_group(revs, gid)[a]).revision
                < (#[trigger] revisions_of_group(revs, gid)[b]).revision,
    decreases revs.len(),
{
    reveal(Seq::filter);
    let pred = |rv: RevisionView| rv.object_group_id == gid;
    let f = revisions_of_group(revs, gid);
    if revs.len() > 0 {
        let head = revs.drop_last();
        assert(crate::store::revisions_ordered(head)) by {
            assert forall|a: int, b: int|
                0 <= a < b < head.len() && (#[trigger] head[a]).object_group_id
                    == (#[trigger] head[b]).object_group_id implies head[a].revision
                < head[b].revision by {
                assert(head[a] == revs[a]);
                assert(head[b] == revs[b]);
            }
        }
        lemma_group_revisions_sorted(head, gid);
        let fh = revisions_of_group(head, gid);
        assert forall|a: int, b: int|
            0 <= a < b < f.len() implies (#[trigger] f[a]).revision < (#[trigger] f[b]).revision
            by {
            if b < fh.len() {
                assert(f[a] == fh[a]);
                assert(f[b] == fh[b]);
            } else {
                assert(pred(revs.last()));
                assert(f[b] == revs.last());
                assert(f[a] == fh[a]);
                lemma_filter_sub(head, pred);
                assert(head.contains(fh[a]));
                let i = choose|i: int| 0 <= i < head.len() && head[i] == fh[a];
                head.lemma_filter_pred(pred, a);
                assert(revs[i] == fh[a]);
                assert(revs[i].object_group_id == revs.last().object_group_id);
                assert(revs[i].revision < revs[revs.len() - 1].revision);
            }
        }
    }
}

/// In a well-formed store, every revision id a dataset version froze
/// names an existing revision whose reverse index lists the version.
pub proof fn lemma_version_revisions_linked(sv: StoreView, v: int, k: int)
    requires
        wf(sv),
        0 <= v < sv.dataset_versions.len(),
        0 <= k < sv.dataset_versions[v].object_group_ids.len(),
    ensures
        exists|r: int|
            0 <= r < sv.revisions.len() && (#[trigger] sv.revisions[r]).id
                == sv.dataset_versions[v].object_group_ids[k]
                && sv.revisions[r].dataset_versions.contains(sv.dataset_versions[v].id),
{
    assert(version_link_at(sv.revisions, sv.dataset_versions, v, k));
}

/// The reverse direction: every version id a revision lists names an
/// existing dataset version that froze this revision.
pub proof fn lemma_revision_versions_linked(sv: StoreView, r: int, k: int)
    requires
        wf(sv),
        0 <= r < sv.revisions.len(),
        0 <= k < sv.revisions[r].dataset_versions.len(),
    ensures
        exists|v: int|
            0 <= v < sv.dataset_versions.len() && (#[trigger] sv.dataset_versions[v]).id
                == sv.revisions[r].dataset_versions[k]
                && sv.dataset_versions[v].object_group_ids.contains(sv.revisions[r].id),
{
    assert(revision_link_at(sv.revisions, sv.dataset_versions, r, k));
}

/// Round trip: a freshly created project is listed among its creator's
/// projects — creating appends exactly one entry to that listing.
pub proof fn lemma_created_project_listed(
    projects: Seq<ProjectView>,
    p: ProjectView,
    uid: Seq<char>,
)
    requires
        p.users == project_creator_users(uid),
    ensures
        user_projects(projects.push(p), uid) == user_projects(projects, uid).push(p),
        user_projects(projects.push(p), uid).contains(p),
{
    assert(project_has_user(p, uid)) by {
        assert(p.users[0].user_id == uid);
    }
    lemma_filter_push(projects, p, |q: ProjectView| project_has_user(q, uid));
    let f = user_projects(projects.push(p), uid);
    assert(f[f.len() - 1] == p);
}

/// Round trip: a freshly created dataset is listed among its project's
/// datasets — creating appends exactly one entry to that listing.
pub proof fn lemma_created_dataset_listed(
    datasets: Seq<DatasetView>,
    d: DatasetView,
    pid: Seq<char>,
)
    requires
        d.project_id == pid,
    ensures
        datasets_of_project(datasets.push(d), pid) == datasets_of_project(datasets, pid).push(d),
        datasets_of_project(datasets.push(d), pid).contains(d),
{
    lemma_filter_push(datasets, d, |q: DatasetView| q.project_id == pid);
    let f = datasets_of_project(datasets.push(d), pid);
    assert(f[f.len() - 1] == d);
}

/// Idempotent delete: after a dataset delete no dataset with that id
/// remains, so a repeated delete can only report not-found.
pub proof fn lemma_delete_dataset_idempotent(a: StoreView, b: StoreView, id: Seq<char>)
    requires
        b.datasets == a.datasets.filter(other_dataset(id)),
    ensures
        !has_dataset(b, id),
{
    if has_dataset(b, id) {
        let i = choose|i: int| 0 <= i < b.datasets.len() && (#[trigger] b.datasets[i]).id == id;
        a.datasets.lemma_filter_pred(other_dataset(id), i);
        assert(false);
    }
}

/// Idempotent delete: after an object group delete no group with that id
/// remains, so a repeated delete can only report not-found.
pub proof fn lemma_delete_group_idempotent(a: StoreView, b: StoreView, id: Seq<char>)
    requires
        b.object_groups == a.object_groups.filter(other_group(id)),
    ensures
        !has_group(b, id),
{
    if has_group(b, id) {
        let i = choose|i: int|
            0 <= i < b.object_groups.len() && (#[trigger] b.object_groups[i]).id == id;
        a.object_groups.lemma_filter_pred(other_group(id), i);
        assert(false);
    }
}

} // verus!
