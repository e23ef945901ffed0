//! The metadata state: one collection per entity type, with the
//! well-formedness invariant every handler preserves.
//!
//! The document database holds exactly these collections; the handlers in
//! this crate are the verified transitions over them, and the adapter that
//! persists each transition performs the corresponding store updates
//! (`$set`, `$inc`, `$addToSet`, `$pull`, id-keyed deletes) outside this
//! crate.

use vstd::prelude::*;

use crate::apitoken::{APIToken, ApiTokenView};
use crate::dataset_model::{DatasetEntry, DatasetView};
use crate::dataset_object_group::{DatasetObject, ObjectGroup, ObjectGroupView,
    ObjectGroupRevision, RevisionView};
use crate::dataset_version::{DatasetVersion, DatasetVersionView};
use crate::project_model::{ProjectEntry, ProjectView};

verus! {

/// All metadata the service owns.
#[derive(Debug)]
pub struct MetaStore {
    pub projects: Vec<ProjectEntry>,
    pub datasets: Vec<DatasetEntry>,
    pub object_groups: Vec<ObjectGroup>,
    pub revisions: Vec<ObjectGroupRevision>,
    pub dataset_versions: Vec<DatasetVersion>,
    pub api_tokens: Vec<APIToken>,
}

/// Mathematical value of a [`MetaStore`].
pub struct StoreView {
    pub projects: Seq<ProjectView>,
    pub datasets: Seq<DatasetView>,
    pub object_groups: Seq<ObjectGroupView>,
    pub revisions: Seq<RevisionView>,
    pub dataset_versions: Seq<DatasetVersionView>,
    pub api_tokens: Seq<ApiTokenView>,
}

impl View for MetaStore {
    type V = StoreView;

    open spec fn view(&self) -> StoreView {
        StoreView {
            projects: self.projects.deep_view(),
            datasets: self.datasets.deep_view(),
            object_groups: self.object_groups.deep_view(),
            revisions: self.revisions.deep_view(),
            dataset_versions: self.dataset_versions.deep_view(),
            api_tokens: self.api_tokens.deep_view(),
        }
    }
}

/// No two projects share an id.
pub open spec fn projects_unique(s: Seq<ProjectView>) -> bool {
    forall|i: int, j: int|
        #![trigger s[i], s[j]]
        0 <= i < j < s.len() ==> s[i].id != s[j].id
}

/// No two datasets share an id.
pub open spec fn datasets_unique(s: Seq<DatasetView>) -> bool {
    forall|i: int, j: int|
        #![trigger s[i], s[j]]
        0 <= i < j < s.len() ==> s[i].id != s[j].id
}

/// No two object groups share an id.
pub open spec fn groups_unique(s: Seq<ObjectGroupView>) -> bool {
    forall|i: int, j: int|
        #![trigger s[i], s[j]]
        0 <= i < j < s.len() ==> s[i].id != s[j].id
}

/// No two revisions share an id.
pub open spec fn revisions_unique(s: Seq<RevisionView>) -> bool {
    forall|i: int, j: int|
        #![trigger s[i], s[j]]
        0 <= i < j < s.len() ==> s[i].id != s[j].id
}

/// No two dataset versions share an id.
pub open spec fn versions_unique(s: Seq<DatasetVersionView>) -> bool {
    forall|i: int, j: int|
        #![trigger s[i], s[j]]
        0 <= i < j < s.len() ==> s[i].id != s[j].id
}

/// No two API tokens share an id.
pub open spec fn tokens_unique(s: Seq<ApiTokenView>) -> bool {
    forall|i: int, j: int|
        #![trigger s[i], s[j]]
        0 <= i < j < s.len() ==> s[i].id != s[j].id
}

/// Object ids are unique across the whole corpus of embedded objects.
pub open spec fn objects_unique(revs: Seq<RevisionView>) -> bool {
    forall|i: int, k: int, j: int, l: int|
        #![trigger revs[i].objects[k], revs[j].objects[l]]
        0 <= i < revs.len() && 0 <= k < revs[i].objects.len() && 0 <= j < revs.len() && 0 <= l
            < revs[j].objects.len() && (i != j || k != l) ==> revs[i].objects[k].id
            != revs[j].objects[l].id
}

/// Every revision of a group is numbered below the group's counter and
/// carries the group's dataset id; counters never go negative.
pub open spec fn counters_wf(sv: StoreView) -> bool {
    &&& forall|g: int|
        0 <= g < sv.object_groups.len() ==> (#[trigger] sv.object_groups[g]).revision_counter >= 0
    &&& forall|g: int, r: int|
        #![trigger sv.object_groups[g], sv.revisions[r]]
        0 <= g < sv.object_groups.len() && 0 <= r < sv.revisions.len()
            && sv.revisions[r].object_group_id == sv.object_groups[g].id ==> 0
            <= sv.revisions[r].revision < sv.object_groups[g].revision_counter
            && sv.revisions[r].dataset_id == sv.object_groups[g].dataset_id
}

/// Within one group, revisions appear in the store in the order they were
/// appended, so their numbers strictly increase by position.
pub open spec fn revisions_ordered(revs: Seq<RevisionView>) -> bool {
    forall|i: int, j: int|
        #![trigger revs[i], revs[j]]
        0 <= i < j < revs.len() && revs[i].object_group_id == revs[j].object_group_id
            ==> revs[i].revision < revs[j].revision
}

/// The `k`-th revision id frozen by version `v` names an existing revision
/// whose reverse index lists the version.
pub open spec fn version_link_at(
    revs: Seq<RevisionView>,
    vers: Seq<DatasetVersionView>,
    v: int,
    k: int,
) -> bool {
    exists|r: int|
        0 <= r < revs.len() && (#[trigger] revs[r]).id == vers[v].object_group_ids[k]
            && revs[r].dataset_versions.contains(vers[v].id)
}

/// The `k`-th version id in revision `r`'s reverse index names an existing
/// dataset version that froze this revision.
pub open spec fn revision_link_at(
    revs: Seq<RevisionView>,
    vers: Seq<DatasetVersionView>,
    r: int,
    k: int,
) -> bool {
    exists|v: int|
        0 <= v < vers.len() && (#[trigger] vers[v]).id == revs[r].dataset_versions[k]
            && vers[v].object_group_ids.contains(revs[r].id)
}

/// Every revision id a dataset version froze names an existing revision
/// whose reverse index lists the version.
pub open spec fn version_links_ok(sv: StoreView) -> bool {
    forall|v: int, k: int|
        0 <= v < sv.dataset_versions.len() && 0 <= k
            < sv.dataset_versions[v].object_group_ids.len() ==> #[trigger] version_link_at(
            sv.revisions,
            sv.dataset_versions,
            v,
            k,
        )
}

/// Every version id in a revision's reverse index names an existing
/// dataset version that froze this revision.
pub open spec fn revision_links_ok(sv: StoreView) -> bool {
    forall|r: int, k: int|
        0 <= r < sv.revisions.len() && 0 <= k < sv.revisions[r].dataset_versions.len()
            ==> #[trigger] revision_link_at(sv.revisions, sv.dataset_versions, r, k)
}

/// Whether some group in `groups` carries `id`.
pub open spec fn group_named(groups: Seq<ObjectGroupView>, id: Seq<char>) -> bool {
    exists|g: int| 0 <= g < groups.len() && (#[trigger] groups[g]).id == id
}

/// Every revision's parent group exists.
pub open spec fn revision_parents_ok(sv: StoreView) -> bool {
    forall|r: int|
        0 <= r < sv.revisions.len() ==> group_named(
            sv.object_groups,
            (#[trigger] sv.revisions[r]).object_group_id,
        )
}

/// The store invariant: unique ids everywhere, revision numbers governed
/// by their group's counter and append order, and the version/revision
/// links bidirectionally consistent.
///
/// Deliberately absent: that a dataset's `project_id` and a group's
/// `dataset_id` name existing parents.  The handlers do not check those
/// links on create (a dataset can be inserted under any project id), so
/// they are not an invariant of this state; in the RPC flow they hold
/// operationally, because authorization resolves every resource through
/// its parent chain before any mutation, so an orphan is unreachable by
/// any authorized call.
pub open spec fn wf(sv: StoreView) -> bool {
    &&& projects_unique(sv.projects)
    &&& datasets_unique(sv.datasets)
    &&& groups_unique(sv.object_groups)
    &&& revisions_unique(sv.revisions)
    &&& versions_unique(sv.dataset_versions)
    &&& tokens_unique(sv.api_tokens)
    &&& objects_unique(sv.revisions)
    &&& counters_wf(sv)
    &&& revision_parents_ok(sv)
    &&& revisions_ordered(sv.revisions)
    &&& version_links_ok(sv)
    &&& revision_links_ok(sv)
}

/// Whether some project carries `id`.
pub open spec fn has_project(sv: StoreView, id: Seq<char>) -> bool {
    exists|i: int| 0 <= i < sv.projects.len() && (#[trigger] sv.projects[i]).id == id
}

/// Whether some dataset carries `id`.
pub open spec fn has_dataset(sv: StoreView, id: Seq<char>) -> bool {
    exists|i: int| 0 <= i < sv.datasets.len() && (#[trigger] sv.datasets[i]).id == id
}

/// Whether some object group carries `id`.
pub open spec fn has_group(sv: StoreView, id: Seq<char>) -> bool {
    exists|i: int| 0 <= i < sv.object_groups.len() && (#[trigger] sv.object_groups[i]).id == id
}

/// Whether some revision carries `id`.
pub open spec fn has_revision(sv: StoreView, id: Seq<char>) -> bool {
    exists|i: int| 0 <= i < sv.revisions.len() && (#[trigger] sv.revisions[i]).id == id
}

/// Whether some dataset version carries `id`.
pub open spec fn has_version(sv: StoreView, id: Seq<char>) -> bool {
    exists|i: int| 0 <= i < sv.dataset_versions.len() && (#[trigger] sv.dataset_versions[i]).id
        == id
}

/// Whether some embedded object carries `id`.
pub open spec fn has_object(sv: StoreView, id: Seq<char>) -> bool {
    exists|r: int, k: int|
        #![trigger sv.revisions[r].objects[k]]
        0 <= r < sv.revisions.len() && 0 <= k < sv.revisions[r].objects.len()
            && sv.revisions[r].objects[k].id == id
}

impl MetaStore {
    /// An empty store; trivially well-formed.
    pub fn new() -> (r: Self)
        ensures
            r@.projects == Seq::<ProjectView>::empty(),
            r@.datasets == Seq::<DatasetView>::empty(),
            r@.object_groups == Seq::<ObjectGroupView>::empty(),
            r@.revisions == Seq::<RevisionView>::empty(),
            r@.dataset_versions == Seq::<DatasetVersionView>::empty(),
            r@.api_tokens == Seq::<ApiTokenView>::empty(),
            wf(r@),
    {
        let r = MetaStore {
            projects: Vec::new(),
            datasets: Vec::new(),
            object_groups: Vec::new(),
            revisions: Vec::new(),
            dataset_versions: Vec::new(),
            api_tokens: Vec::new(),
        };
        proof {
            assert(r@.projects =~= Seq::<ProjectView>::empty());
            assert(r@.datasets =~= Seq::<DatasetView>::empty());
            assert(r@.object_groups =~= Seq::<ObjectGroupView>::empty());
            assert(r@.revisions =~= Seq::<RevisionView>::empty());
            assert(r@.dataset_versions =~= Seq::<DatasetVersionView>::empty());
            assert(r@.api_tokens =~= Seq::<ApiTokenView>::empty());
        }
        r
    }

    /// Index of the project with `id`, if any.
    pub fn find_project(&self, id: &str) -> (r: Option<usize>)
        ensures
            match r {
                Some(i) => i < self@.projects.len() && self@.projects[i as int].id == id@,
                None => !has_project(self@, id@),
            },
    {
        let wanted: String = id.to_owned();
        let mut i: usize = 0;
        while i < self.projects.len()
            invariant
                i <= self.projects@.len(),
                wanted@ == id@,
                forall|j: int| 0 <= j < i ==> (#[trigger] self@.projects[j]).id != id@,
            decreases self.projects@.len() - i,
        {
            if self.projects[i].id == wanted {
                return Some(i);
            }
            i = i + 1;
        }
        None
    }

    /// Index of the dataset with `id`, if any.
    pub fn find_dataset(&self, id: &str) -> (r: Option<usize>)
        ensures
            match r {
                Some(i) => i < self@.datasets.len() && self@.datasets[i as int].id == id@,
                None => !has_dataset(self@, id@),
            },
    {
        let wanted: String = id.to_owned();
        let mut i: usize = 0;
        while i < self.datasets.len()
            invariant
                i <= self.datasets@.len(),
                wanted@ == id@,
                forall|j: int| 0 <= j < i ==> (#[trigger] self@.datasets[j]).id != id@,
            decreases self.datasets@.len() - i,
        {
            if self.datasets[i].id == wanted {
                return Some(i);
            }
            i = i + 1;
        }
        None
    }

    /// Index of the object group with `id`, if any.
    pub fn find_object_group(&self, id: &str) -> (r: Option<usize>)
        ensures
            match r {
                Some(i) => i < self@.object_groups.len() && self@.object_groups[i as int].id
                    == id@,
                None => !has_group(self@, id@),
            },
    {
        let wanted: String = id.to_owned();
        let mut i: usize = 0;
        while i < self.object_groups.len()
            invariant
                i <= self.object_groups@.len(),
                wanted@ == id@,
                forall|j: int| 0 <= j < i ==> (#[trigger] self@.object_groups[j]).id != id@,
            decreases self.object_groups@.len() - i,
        {
            if self.object_groups[i].id == wanted {
                return Some(i);
            }
            i = i + 1;
        }
        None
    }

    /// Index of the revision with `id`, if any.
    pub fn find_revision(&self, id: &str) -> (r: Option<usize>)
        ensures
            match r {
                Some(i) => i < self@.revisions.len() && self@.revisions[i as int].id == id@,
                None => !has_revision(self@, id@),
            },
    {
        let wanted: String = id.to_owned();
        let mut i: usize = 0;
        while i < self.revisions.len()
            invariant
                i <= self.revisions@.len(),
                wanted@ == id@,
                forall|j: int| 0 <= j < i ==> (#[trigger] self@.revisions[j]).id != id@,
            decreases self.revisions@.len() - i,
        {
            if self.revisions[i].id == wanted {
                return Some(i);
            }
            i = i + 1;
        }
        None
    }

    /// Index of the dataset version with `id`, if any.
    pub fn find_dataset_version(&self, id: &str) -> (r: Option<usize>)
        ensures
            match r {
                Some(i) => i < self@.dataset_versions.len() && self@.dataset_versions[i as int].id
                    == id@,
                None => !has_version(self@, id@),
            },
    {
        let wanted: String = id.to_owned();
        let mut i: usize = 0;
        while i < self.dataset_versions.len()
            invariant
                i <= self.dataset_versions@.len(),
                wanted@ == id@,
                forall|j: int| 0 <= j < i ==> (#[trigger] self@.dataset_versions[j]).id != id@,
            decreases self.dataset_versions@.len() - i,
        {
            if self.dataset_versions[i].id == wanted {
                return Some(i);
            }
            i = i + 1;
        }
        None
    }

    /// Index of the API token with `id`, if any.
    pub fn find_api_token_by_id(&self, id: &str) -> (r: Option<usize>)
        ensures
            match r {
                Some(i) => i < self@.api_tokens.len() && self@.api_tokens[i as int].id == id@,
                None => forall|i: int|
                    0 <= i < self@.api_tokens.len() ==> (#[trigger] self@.api_tokens[i]).id
                        != id@,
            },
    {
        let wanted: String = id.to_owned();
        let mut i: usize = 0;
        while i < self.api_tokens.len()
            invariant
                i <= self.api_tokens@.len(),
                wanted@ == id@,
                forall|j: int| 0 <= j < i ==> (#[trigger] self@.api_tokens[j]).id != id@,
            decreases self.api_tokens@.len() - i,
        {
            if self.api_tokens[i].id == wanted {
                return Some(i);
            }
            i = i + 1;
        }
        None
    }

    /// Index of the first API token whose secret equals `token`, if any.
    pub fn find_api_token(&self, token: &str) -> (r: Option<usize>)
        ensures
            match r {
                Some(i) => i < self@.api_tokens.len() && self@.api_tokens[i as int].token
                    == token@ && forall|j: int|
                    0 <= j < i ==> (#[trigger] self@.api_tokens[j]).token != token@,
                None => forall|i: int|
                    0 <= i < self@.api_tokens.len() ==> (#[trigger] self@.api_tokens[i]).token
                        != token@,
            },
    {
        let wanted: String = token.to_owned();
        let mut i: usize = 0;
        while i < self.api_tokens.len()
            invariant
                i <= self.api_tokens@.len(),
                wanted@ == token@,
                forall|j: int| 0 <= j < i ==> (#[trigger] self@.api_tokens[j]).token != token@,
            decreases self.api_tokens@.len() - i,
        {
            if self.api_tokens[i].token == wanted {
                return Some(i);
            }
            i = i + 1;
        }
        None
    }

    /// Index of the revision of group `group_id` numbered `revision`, if
    /// any.
    pub fn find_revision_by_number(&self, group_id: &str, revision: i64) -> (r: Option<usize>)
        ensures
            match r {
                Some(i) => i < self@.revisions.len() && self@.revisions[i as int].object_group_id
                    == group_id@ && self@.revisions[i as int].revision == revision,
                None => forall|i: int|
                    0 <= i < self@.revisions.len() ==> !((#[trigger] self@.revisions[i]).object_group_id
                        == group_id@ && self@.revisions[i].revision == revision),
            },
    {
        let wanted: String = group_id.to_owned();
        let mut i: usize = 0;
        while i < self.revisions.len()
            invariant
                i <= self.revisions@.len(),
                wanted@ == group_id@,
                forall|j: int|
                    0 <= j < i ==> !((#[trigger] self@.revisions[j]).object_group_id == group_id@
                        && self@.revisions[j].revision == revision),
            decreases self.revisions@.len() - i,
        {
            if self.revisions[i].object_group_id == wanted && self.revisions[i].revision
                == revision {
                return Some(i);
            }
            i = i + 1;
        }
        None
    }

    /// Position of the embedded object with `id`: the revision index and
    /// the index inside that revision's object list.  This is the
    /// positional lookup: exactly the matching element is designated,
    /// never another object of the same revision.
    pub fn find_object(&self, id: &str) -> (r: Option<(usize, usize)>)
        ensures
            match r {
                Some((ri, oi)) => ri < self@.revisions.len() && oi
                    < self@.revisions[ri as int].objects.len()
                    && self@.revisions[ri as int].objects[oi as int].id == id@,
                None => !has_object(self@, id@),
            },
    {
        let wanted: String = id.to_owned();
        let mut i: usize = 0;
        while i < self.revisions.len()
            invariant
                i <= self.revisions@.len(),
                wanted@ == id@,
                forall|j: int, k: int|
                    #![trigger self@.revisions[j].objects[k]]
                    0 <= j < i && 0 <= k < self@.revisions[j].objects.len()
                        ==> self@.revisions[j].objects[k].id != id@,
            decreases self.revisions@.len() - i,
        {
            let objects = &self.revisions[i].objects;
            let mut k: usize = 0;
            while k < objects.len()
                invariant
                    i < self.revisions@.len(),
                    k <= objects@.len(),
                    wanted@ == id@,
                    objects.deep_view() == self@.revisions[i as int].objects,
                    forall|l: int|
                        0 <= l < k ==> (#[trigger] self@.revisions[i as int].objects[l]).id
                            != id@,
                decreases objects@.len() - k,
            {
                if objects[k].id == wanted {
                    return Some((i, k));
                }
                k = k + 1;
            }
            i = i + 1;
        }
        None
    }
}


/// The collections other than `projects` agree between `a` and `b`.
pub open spec fn same_except_projects(a: StoreView, b: StoreView) -> bool {
    &&& b.datasets == a.datasets
    &&& b.object_groups == a.object_groups
    &&& b.revisions == a.revisions
    &&& b.dataset_versions == a.dataset_versions
    &&& b.api_tokens == a.api_tokens
}

/// The collections other than `datasets` agree between `a` and `b`.
pub open spec fn same_except_datasets(a: StoreView, b: StoreView) -> bool {
    &&& b.projects == a.projects
    &&& b.object_groups == a.object_groups
    &&& b.revisions == a.revisions
    &&& b.dataset_versions == a.dataset_versions
    &&& b.api_tokens == a.api_tokens
}

/// The collections other than `object_groups` agree between `a` and `b`.
pub open spec fn same_except_groups(a: StoreView, b: StoreView) -> bool {
    &&& b.projects == a.projects
    &&& b.datasets == a.datasets
    &&& b.revisions == a.revisions
    &&& b.dataset_versions == a.dataset_versions
    &&& b.api_tokens == a.api_tokens
}

/// The collections other than `api_tokens` agree between `a` and `b`.
pub open spec fn same_except_tokens(a: StoreView, b: StoreView) -> bool {
    &&& b.projects == a.projects
    &&& b.datasets == a.datasets
    &&& b.object_groups == a.object_groups
    &&& b.revisions == a.revisions
    &&& b.dataset_versions == a.dataset_versions
}

/// The collections other than `object_groups` and `revisions` agree
/// between `a` and `b`.
pub open spec fn same_except_groups_and_revisions(a: StoreView, b: StoreView) -> bool {
    &&& b.projects == a.projects
    &&& b.datasets == a.datasets
    &&& b.dataset_versions == a.dataset_versions
    &&& b.api_tokens == a.api_tokens
}

/// The collections other than `dataset_versions` and `revisions` agree
/// between `a` and `b`.
pub open spec fn same_except_versions_and_revisions(a: StoreView, b: StoreView) -> bool {
    &&& b.projects == a.projects
    &&& b.datasets == a.datasets
    &&& b.object_groups == a.object_groups
    &&& b.api_tokens == a.api_tokens
}


/// The link invariants depend only on `revisions` and `dataset_versions`;
/// they carry over to any store that agrees on those collections.
pub proof fn lemma_links_unchanged(a: StoreView, b: StoreView)
    requires
        version_links_ok(a),
        revision_links_ok(a),
        b.revisions == a.revisions,
        b.dataset_versions == a.dataset_versions,
    ensures
        version_links_ok(b),
        revision_links_ok(b),
{
    assert forall|v: int, k: int|
        0 <= v < b.dataset_versions.len() && 0 <= k
            < b.dataset_versions[v].object_group_ids.len() implies #[trigger] version_link_at(
        b.revisions,
        b.dataset_versions,
        v,
        k,
    ) by {
        assert(version_link_at(a.revisions, a.dataset_versions, v, k));
    }
    assert forall|r: int, k: int|
        0 <= r < b.revisions.len() && 0 <= k < b.revisions[r].dataset_versions.len()
            implies #[trigger] revision_link_at(b.revisions, b.dataset_versions, r, k) by {
        assert(revision_link_at(a.revisions, a.dataset_versions, r, k));
    }
}


/// Appending a revision that no dataset version references yet keeps the
/// link invariants.
pub proof fn lemma_links_push_revision(a: StoreView, b: StoreView, rv: RevisionView)
    requires
        version_links_ok(a),
        revision_links_ok(a),
        b.dataset_versions == a.dataset_versions,
        b.revisions == a.revisions.push(rv),
        rv.dataset_versions.len() == 0,
    ensures
        version_links_ok(b),
        revision_links_ok(b),
{
    assert forall|v: int, k: int|
        0 <= v < b.dataset_versions.len() && 0 <= k
            < b.dataset_versions[v].object_group_ids.len() implies #[trigger] version_link_at(
        b.revisions,
        b.dataset_versions,
        v,
        k,
    ) by {
        assert(version_link_at(a.revisions, a.dataset_versions, v, k));
        let r = choose|r: int|
            0 <= r < a.revisions.len() && (#[trigger] a.revisions[r]).id
                == a.dataset_versions[v].object_group_ids[k]
                && a.revisions[r].dataset_versions.contains(a.dataset_versions[v].id);
        assert(b.revisions[r] == a.revisions[r]);
    }
    assert forall|r: int, k: int|
        0 <= r < b.revisions.len() && 0 <= k < b.revisions[r].dataset_versions.len()
            implies #[trigger] revision_link_at(b.revisions, b.dataset_versions, r, k) by {
        if r < a.revisions.len() {
            assert(b.revisions[r] == a.revisions[r]);
            assert(revision_link_at(a.revisions, a.dataset_versions, r, k));
            let v = choose|v: int|
                0 <= v < a.dataset_versions.len() && (#[trigger] a.dataset_versions[v]).id
                    == a.revisions[r].dataset_versions[k]
                    && a.dataset_versions[v].object_group_ids.contains(a.revisions[r].id);
            assert(0 <= v < b.dataset_versions.len() && b.dataset_versions[v].id
                == b.revisions[r].dataset_versions[k]
                && b.dataset_versions[v].object_group_ids.contains(b.revisions[r].id));
        } else {
            assert(b.revisions[r] == rv);
            assert(false);
        }
    }
}


/// The collections other than `revisions` agree between `a` and `b`.
pub open spec fn same_except_revisions(a: StoreView, b: StoreView) -> bool {
    &&& b.projects == a.projects
    &&& b.datasets == a.datasets
    &&& b.object_groups == a.object_groups
    &&& b.dataset_versions == a.dataset_versions
    &&& b.api_tokens == a.api_tokens
}

/// Only `projects` and `api_tokens` are untouched: the dataset tree
/// (datasets, versions, groups, revisions) may change.
pub open spec fn same_outside_dataset_tree(a: StoreView, b: StoreView) -> bool {
    &&& b.projects == a.projects
    &&& b.api_tokens == a.api_tokens
}

} // verus!
