//! Read handlers: id lookups, parent-scoped listings and the positional
//! object lookup.

use vstd::prelude::*;

use crate::apitoken::{APIToken, ApiTokenView};
use crate::dataset_model::{DatasetEntry, DatasetView};
use crate::dataset_object_group::{DatasetObject, ObjectGroup, ObjectGroupView,
    ObjectGroupRevision, RevisionView};
use crate::dataset_version::{DatasetVersion, DatasetVersionView};
use crate::error::{ApiError, ErrorKind};
use crate::project_model::{ProjectEntry, ProjectView};
use crate::store::{has_dataset, has_group, has_object, has_project, has_revision, has_version,
    wf, MetaStore};

verus! {

/// Whether project `p` lists a user entry for `uid`, with any rights.
pub open spec fn project_has_user(p: ProjectView, uid: Seq<char>) -> bool {
    exists|i: int| 0 <= i < p.users.len() && (#[trigger] p.users[i]).user_id == uid
}

/// The projects that list `uid` among their users, in store order.
pub open spec fn user_projects(projects: Seq<ProjectView>, uid: Seq<char>) -> Seq<ProjectView> {
    projects.filter(|p: ProjectView| project_has_user(p, uid))
}

/// The datasets under project `pid`, in store order.
pub open spec fn datasets_of_project(datasets: Seq<DatasetView>, pid: Seq<char>) -> Seq<
    DatasetView,
> {
    datasets.filter(|d: DatasetView| d.project_id == pid)
}

/// The dataset versions under dataset `did`, in store order.
pub open spec fn versions_of_dataset(vers: Seq<DatasetVersionView>, did: Seq<char>) -> Seq<
    DatasetVersionView,
> {
    vers.filter(|v: DatasetVersionView| v.dataset_id == did)
}

/// The object groups under dataset `did`, in store order.
pub open spec fn groups_of_dataset(groups: Seq<ObjectGroupView>, did: Seq<char>) -> Seq<
    ObjectGroupView,
> {
    groups.filter(|g: ObjectGroupView| g.dataset_id == did)
}

/// The revisions of group `gid`, in store order.
pub open spec fn revisions_of_group(revs: Seq<RevisionView>, gid: Seq<char>) -> Seq<RevisionView> {
    revs.filter(|r: RevisionView| r.object_group_id == gid)
}

/// The API tokens issued to `uid`, in store order.
pub open spec fn tokens_of_user(toks: Seq<ApiTokenView>, uid: Seq<char>) -> Seq<ApiTokenView> {
    toks.filter(|t: ApiTokenView| t.user_id == uid)
}

/// Appending one element distributes over `filter`.
pub proof fn lemma_filter_push<A>(s: Seq<A>, x: A, pred: spec_fn(A) -> bool)
    ensures
        s.push(x).filter(pred) == if pred(x) {
            s.filter(pred).push(x)
        } else {
            s.filter(pred)
        },
{
    reveal(Seq::filter);
    assert(s.push(x).drop_last() =~= s);
    assert(s.push(x).last() == x);
}

/// Every element of a filtered sequence occurs in the original.
pub proof fn lemma_filter_sub<A>(s: Seq<A>, pred: spec_fn(A) -> bool)
    ensures
        forall|a: int|
            0 <= a < s.filter(pred).len() ==> s.contains(#[trigger] s.filter(pred)[a]),
    decreases s.len(),
{
    reveal(Seq::filter);
    if s.len() > 0 {
        lemma_filter_sub(s.drop_last(), pred);
        let sub = s.drop_last().filter(pred);
        assert forall|a: int|
            0 <= a < s.filter(pred).len() implies s.contains(#[trigger] s.filter(pred)[a]) by {
            if a < sub.len() {
                assert(sub[a] == s.filter(pred)[a]);
                assert(s.drop_last().contains(sub[a]));
                let w = choose|w: int| 0 <= w < s.drop_last().len() && s.drop_last()[w] == sub[a];
                assert(s[w] == sub[a]);
            } else {
                assert(s.filter(pred)[a] == s.last());
                assert(s[s.len() - 1] == s.last());
            }
        }
    }
}

impl MetaStore {
    /// The project `id`, or not-found.
    pub fn read_project(&self, id: &str) -> (r: Result<ProjectEntry, ApiError>)
        ensures
            match r {
                Ok(p) => has_project(self@, id@) && p@.id == id@ && self@.projects.contains(p@),
                Err(e) => !has_project(self@, id@) && e.kind == ErrorKind::NotFound,
            },
    {
        match self.find_project(id) {
            Some(i) => {
                let p = self.projects[i].clone();
                proof {
                    assert(self@.projects[i as int] == p@);
                }
                Ok(p)
            },
            None => Err(ApiError::new(ErrorKind::NotFound, "could not find requested document. type: project")),
        }
    }

    /// The dataset `id`, or not-found.
    pub fn read_dataset(&self, id: &str) -> (r: Result<DatasetEntry, ApiError>)
        ensures
            match r {
                Ok(d) => has_dataset(self@, id@) && d@.id == id@ && self@.datasets.contains(d@),
                Err(e) => !has_dataset(self@, id@) && e.kind == ErrorKind::NotFound,
            },
    {
        match self.find_dataset(id) {
            Some(i) => {
                let d = self.datasets[i].clone();
                proof {
                    assert(self@.datasets[i as int] == d@);
                }
                Ok(d)
            },
            None => Err(ApiError::new(ErrorKind::NotFound, "could not find requested document. type: Dataset")),
        }
    }

    /// The object group `id`, or not-found.
    pub fn read_object_group(&self, id: &str) -> (r: Result<ObjectGroup, ApiError>)
        ensures
            match r {
                Ok(g) => has_group(self@, id@) && g@.id == id@ && self@.object_groups.contains(
                    g@,
                ),
                Err(e) => !has_group(self@, id@) && e.kind == ErrorKind::NotFound,
            },
    {
        match self.find_object_group(id) {
            Some(i) => {
                let g = self.object_groups[i].clone();
                proof {
                    assert(self@.object_groups[i as int] == g@);
                }
                Ok(g)
            },
            None => Err(
                ApiError::new(ErrorKind::NotFound, "could not find requested document. type: ObjectGroup"),
            ),
        }
    }

    /// The revision `id`, or not-found.
    pub fn read_revision(&self, id: &str) -> (r: Result<ObjectGroupRevision, ApiError>)
        ensures
            match r {
                Ok(rev) => has_revision(self@, id@) && rev@.id == id@ && self@.revisions.contains(
                    rev@,
                ),
                Err(e) => !has_revision(self@, id@) && e.kind == ErrorKind::NotFound,
            },
    {
        match self.find_revision(id) {
            Some(i) => {
                let rev = self.revisions[i].clone();
                proof {
                    assert(self@.revisions[i as int] == rev@);
                }
                Ok(rev)
            },
            None => Err(
                ApiError::new(ErrorKind::NotFound, "could not find requested document. type: ObjectGroupRevision"),
            ),
        }
    }

    /// The dataset version `id`, or not-found.
    pub fn read_dataset_version(&self, id: &str) -> (r: Result<DatasetVersion, ApiError>)
        ensures
            match r {
                Ok(v) => has_version(self@, id@) && v@.id == id@ && self@.dataset_versions.contains(
                    v@,
                ),
                Err(e) => !has_version(self@, id@) && e.kind == ErrorKind::NotFound,
            },
    {
        match self.find_dataset_version(id) {
            Some(i) => {
                let v = self.dataset_versions[i].clone();
                proof {
                    assert(self@.dataset_versions[i as int] == v@);
                }
                Ok(v)
            },
            None => Err(
                ApiError::new(ErrorKind::NotFound, "could not find requested document. type: DatasetVersion"),
            ),
        }
    }

    /// The revision of group `group_id` numbered `revision`, or not-found.
    pub fn read_revision_by_number(&self, group_id: &str, revision: i64) -> (r: Result<
        ObjectGroupRevision,
        ApiError,
    >)
        ensures
            match r {
                Ok(rev) => rev@.object_group_id == group_id@ && rev@.revision == revision
                    && self@.revisions.contains(rev@),
                Err(e) => e.kind == ErrorKind::NotFound && forall|i: int|
                    0 <= i < self@.revisions.len() ==> !((#[trigger] self@.revisions[i]).object_group_id
                        == group_id@ && self@.revisions[i].revision == revision),
            },
    {
        match self.find_revision_by_number(group_id, revision) {
            Some(i) => {
                let rev = self.revisions[i].clone();
                proof {
                    assert(self@.revisions[i as int] == rev@);
                }
                Ok(rev)
            },
            None => Err(
                ApiError::new(ErrorKind::NotFound, "could not find requested document. type: ObjectGroupRevision"),
            ),
        }
    }

    /// The most recent revision of group `group_id`: the one numbered one
    /// below the group's counter.  Not-found exactly when the group is
    /// missing or its head-numbered revision has been deleted.
    pub fn read_current_revision(&self, group_id: &str) -> (r: Result<
        ObjectGroupRevision,
        ApiError,
    >)
        requires
            wf(self@),
        ensures
            match r {
                Ok(rev) => {
                    &&& has_group(self@, group_id@)
                    &&& rev@.object_group_id == group_id@
                    &&& self@.revisions.contains(rev@)
                    &&& exists|gi: int|
                        0 <= gi < self@.object_groups.len()
                            && (#[trigger] self@.object_groups[gi]).id == group_id@
                            && rev@.revision == self@.object_groups[gi].revision_counter - 1
                },
                Err(e) => e.kind == ErrorKind::NotFound && (!has_group(self@, group_id@) || (
                exists|gi: int|
                    0 <= gi < self@.object_groups.len()
                        && (#[trigger] self@.object_groups[gi]).id == group_id@ && (forall|i: int|
                        0 <= i < self@.revisions.len()
                            ==> !((#[trigger] self@.revisions[i]).object_group_id == group_id@
                            && self@.revisions[i].revision
                            == self@.object_groups[gi].revision_counter - 1)))),
            },
    {
        match self.find_object_group(group_id) {
            None => Err(
                ApiError::new(
                    ErrorKind::NotFound,
                    "could not find requested document. type: ObjectGroup",
                ),
            ),
            Some(gi) => {
                let counter = self.object_groups[gi].revision_counter;
                proof {
                    assert(self@.object_groups[gi as int].revision_counter >= 0);
                }
                self.read_revision_by_number(group_id, counter - 1)
            },
        }
    }

    /// The embedded object `id`, or not-found.  Exactly the matching
    /// object is returned, never a sibling from the same revision.
    pub fn read_object(&self, id: &str) -> (r: Result<DatasetObject, ApiError>)
        ensures
            match r {
                Ok(o) => has_object(self@, id@) && o@.id == id@ && exists|ri: int, oi: int|
                    #![trigger self@.revisions[ri].objects[oi]]
                    0 <= ri < self@.revisions.len() && 0 <= oi < self@.revisions[ri].objects.len()
                        && self@.revisions[ri].objects[oi] == o@,
                Err(e) => !has_object(self@, id@) && e.kind == ErrorKind::NotFound,
            },
    {
        match self.find_object(id) {
            Some((ri, oi)) => {
                let o = self.revisions[ri].objects[oi].clone();
                proof {
                    assert(self@.revisions[ri as int].objects[oi as int] == o@);
                }
                Ok(o)
            },
            None => Err(
                ApiError::new(ErrorKind::NotFound, "could not find requested document. type: Object"),
            ),
        }
    }

    /// Every project that lists `user_id` among its users.
    #[verifier::loop_isolation(false)]
    pub fn read_user_projects(&self, user_id: &str) -> (r: Vec<ProjectEntry>)
        ensures
            r.deep_view() == user_projects(self@.projects, user_id@),
    {
        let ghost pred = |p: ProjectView| project_has_user(p, user_id@);
        let mut out: Vec<ProjectEntry> = Vec::new();
        proof {
            assert(out.deep_view() =~= self@.projects.take(0).filter(pred));
        }
        let mut i: usize = 0;
        while i < self.projects.len()
            invariant
                i <= self@.projects.len(),
                out.deep_view() == self@.projects.take(i as int).filter(pred),
            decreases self@.projects.len() - i,
        {
            let ghost pre = out.deep_view();
            let mut matched: bool = false;
            let users = &self.projects[i].users;
            let wanted: String = user_id.to_owned();
            let mut u: usize = 0;
            while u < users.len()
                invariant
                    i < self@.projects.len(),
                    u <= users@.len(),
                    wanted@ == user_id@,
                    users.deep_view() == self@.projects[i as int].users,
                    matched ==> project_has_user(self@.projects[i as int], user_id@),
                    !matched ==> forall|j: int|
                        0 <= j < u ==> (#[trigger] self@.projects[i as int].users[j]).user_id
                            != user_id@,
                decreases users@.len() - u,
            {
                if users[u].user_id == wanted {
                    proof {
                        assert(self@.projects[i as int].users[u as int].user_id == user_id@);
                    }
                    matched = true;
                }
                u = u + 1;
            }
            if matched {
                out.push(self.projects[i].clone());
            }
            proof {
                assert(self@.projects.take(i + 1 as int) =~= self@.projects.take(i as int).push(
                    self@.projects[i as int],
                ));
                lemma_filter_push(self@.projects.take(i as int), self@.projects[i as int], pred);
                if matched {
                    assert(out.deep_view() =~= pre.push(self@.projects[i as int]));
                } else {
                    assert(!project_has_user(self@.projects[i as int], user_id@));
                }
            }
            i = i + 1;
        }
        proof {
            assert(self@.projects.take(self@.projects.len() as int) =~= self@.projects);
        }
        out
    }

    /// Every dataset under project `project_id`.
    #[verifier::loop_isolation(false)]
    pub fn read_project_datasets(&self, project_id: &str) -> (r: Vec<DatasetEntry>)
        ensures
            r.deep_view() == datasets_of_project(self@.datasets, project_id@),
    {
        let ghost pred = |d: DatasetView| d.project_id == project_id@;
        let wanted: String = project_id.to_owned();
        let mut out: Vec<DatasetEntry> = Vec::new();
        proof {
            assert(out.deep_view() =~= self@.datasets.take(0).filter(pred));
        }
        let mut i: usize = 0;
        while i < self.datasets.len()
            invariant
                i <= self@.datasets.len(),
                wanted@ == project_id@,
                out.deep_view() == self@.datasets.take(i as int).filter(pred),
            decreases self@.datasets.len() - i,
        {
            let ghost pre = out.deep_view();
            let matched = self.datasets[i].project_id == wanted;
            if matched {
                out.push(self.datasets[i].clone());
            }
            proof {
                assert(self@.datasets.take(i + 1 as int) =~= self@.datasets.take(i as int).push(
                    self@.datasets[i as int],
                ));
                lemma_filter_push(self@.datasets.take(i as int), self@.datasets[i as int], pred);
                if matched {
                    assert(out.deep_view() =~= pre.push(self@.datasets[i as int]));
                } else {
                    assert(self@.datasets[i as int].project_id != project_id@);
                }
            }
            i = i + 1;
        }
        proof {
            assert(self@.datasets.take(self@.datasets.len() as int) =~= self@.datasets);
        }
        out
    }

    /// Every dataset version under dataset `dataset_id`.
    #[verifier::loop_isolation(false)]
    pub fn read_dataset_versions(&self, dataset_id: &str) -> (r: Vec<DatasetVersion>)
        ensures
            r.deep_view() == versions_of_dataset(self@.dataset_versions, dataset_id@),
    {
        let ghost pred = |v: DatasetVersionView| v.dataset_id == dataset_id@;
        let wanted: String = dataset_id.to_owned();
        let mut out: Vec<DatasetVersion> = Vec::new();
        proof {
            assert(out.deep_view() =~= self@.dataset_versions.take(0).filter(pred));
        }
        let mut i: usize = 0;
        while i < self.dataset_versions.len()
            invariant
                i <= self@.dataset_versions.len(),
                wanted@ == dataset_id@,
                out.deep_view() == self@.dataset_versions.take(i as int).filter(pred),
            decreases self@.dataset_versions.len() - i,
        {
            let ghost pre = out.deep_view();
            let matched = self.dataset_versions[i].dataset_id == wanted;
            if matched {
                out.push(self.dataset_versions[i].clone());
            }
            proof {
                assert(self@.dataset_versions.take(i + 1 as int) =~= self@.dataset_versions.take(
                    i as int,
                ).push(self@.dataset_versions[i as int]));
                lemma_filter_push(
                    self@.dataset_versions.take(i as int),
                    self@.dataset_versions[i as int],
                    pred,
                );
                if matched {
                    assert(out.deep_view() =~= pre.push(self@.dataset_versions[i as int]));
                } else {
                    assert(self@.dataset_versions[i as int].dataset_id != dataset_id@);
                }
            }
            i = i + 1;
        }
        proof {
            assert(self@.dataset_versions.take(self@.dataset_versions.len() as int)
                =~= self@.dataset_versions);
        }
        out
    }

    /// Every object group under dataset `dataset_id`.
    #[verifier::loop_isolation(false)]
    pub fn read_dataset_object_groups(&self, dataset_id: &str) -> (r: Vec<ObjectGroup>)
        ensures
            r.deep_view() == groups_of_dataset(self@.object_groups, dataset_id@),
    {
        let ghost pred = |g: ObjectGroupView| g.dataset_id == dataset_id@;
        let wanted: String = dataset_id.to_owned();
        let mut out: Vec<ObjectGroup> = Vec::new();
        proof {
            assert(out.deep_view() =~= self@.object_groups.take(0).filter(pred));
        }
        let mut i: usize = 0;
        while i < self.object_groups.len()
            invariant
                i <= self@.object_groups.len(),
                wanted@ == dataset_id@,
                out.deep_view() == self@.object_groups.take(i as int).filter(pred),
            decreases self@.object_groups.len() - i,
        {
            let ghost pre = out.deep_view();
            let matched = self.object_groups[i].dataset_id == wanted;
            if matched {
                out.push(self.object_groups[i].clone());
            }
            proof {
                assert(self@.object_groups.take(i + 1 as int) =~= self@.object_groups.take(
                    i as int,
                ).push(self@.object_groups[i as int]));
                lemma_filter_push(
                    self@.object_groups.take(i as int),
                    self@.object_groups[i as int],
                    pred,
                );
                if matched {
                    assert(out.deep_view() =~= pre.push(self@.object_groups[i as int]));
                } else {
                    assert(self@.object_groups[i as int].dataset_id != dataset_id@);
                }
            }
            i = i + 1;
        }
        proof {
            assert(self@.object_groups.take(self@.object_groups.len() as int)
                =~= self@.object_groups);
        }
        out
    }

    /// Every API token issued to `user_id`.
    #[verifier::loop_isolation(false)]
    pub fn read_user_api_tokens(&self, user_id: &str) -> (r: Vec<APIToken>)
        ensures
            r.deep_view() == tokens_of_user(self@.api_tokens, user_id@),
    {
        let ghost pred = |t: ApiTokenView| t.user_id == user_id@;
        let wanted: String = user_id.to_owned();
        let mut out: Vec<APIToken> = Vec::new();
        proof {
            assert(out.deep_view() =~= self@.api_tokens.take(0).filter(pred));
        }
        let mut i: usize = 0;
        while i < self.api_tokens.len()
            invariant
                i <= self@.api_tokens.len(),
                wanted@ == user_id@,
                out.deep_view() == self@.api_tokens.take(i as int).filter(pred),
            decreases self@.api_tokens.len() - i,
        {
            let ghost pre = out.deep_view();
            let matched = self.api_tokens[i].user_id == wanted;
            if matched {
                out.push(self.api_tokens[i].clone());
            }
            proof {
                assert(self@.api_tokens.take(i + 1 as int) =~= self@.api_tokens.take(i as int).push(
                    self@.api_tokens[i as int],
                ));
                lemma_filter_push(self@.api_tokens.take(i as int), self@.api_tokens[i as int], pred);
                if matched {
                    assert(out.deep_view() =~= pre.push(self@.api_tokens[i as int]));
                } else {
                    assert(self@.api_tokens[i as int].user_id != user_id@);
                }
            }
            i = i + 1;
        }
        proof {
            assert(self@.api_tokens.take(self@.api_tokens.len() as int) =~= self@.api_tokens);
        }
        out
    }

    /// Every revision of group `group_id`, in store order; in a
    /// well-formed store that order is by strictly increasing revision
    /// number.
    #[verifier::loop_isolation(false)]
    pub fn read_group_revisions(&self, group_id: &str) -> (r: Vec<ObjectGroupRevision>)
        requires
            wf(self@),
        ensures
            r.deep_view() == revisions_of_group(self@.revisions, group_id@),
            forall|a: int, b: int|
                0 <= a < b < r.deep_view().len() ==> (#[trigger] r.deep_view()[a]).revision
                    < (#[trigger] r.deep_view()[b]).revision,
    {
        let ghost pred = |rv: RevisionView| rv.object_group_id == group_id@;
        let wanted: String = group_id.to_owned();
        let mut out: Vec<ObjectGroupRevision> = Vec::new();
        proof {
            assert(out.deep_view() =~= self@.revisions.take(0).filter(pred));
        }
        let mut i: usize = 0;
        while i < self.revisions.len()
            invariant
                i <= self@.revisions.len(),
                wanted@ == group_id@,
                out.deep_view() == self@.revisions.take(i as int).filter(pred),
                forall|a: int|
                    0 <= a < out.deep_view().len() ==> exists|j: int|
                        0 <= j < i && #[trigger] out.deep_view()[a] == self@.revisions[j],
                forall|a: int, b: int|
                    0 <= a < b < out.deep_view().len() ==> (#[trigger] out.deep_view()[a]).revision
                        < (#[trigger] out.deep_view()[b]).revision,
            decreases self@.revisions.len() - i,
        {
            let ghost pre = out.deep_view();
            let matched = self.revisions[i].object_group_id == wanted;
            if matched {
                out.push(self.revisions[i].clone());
            }
            proof {
                assert(self@.revisions.take(i + 1 as int) =~= self@.revisions.take(i as int).push(
                    self@.revisions[i as int],
                ));
                lemma_filter_push(self@.revisions.take(i as int), self@.revisions[i as int], pred);
                if matched {
                    assert(out.deep_view() =~= pre.push(self@.revisions[i as int]));
                    assert forall|a: int|
                        0 <= a < out.deep_view().len() implies exists|j: int|
                        0 <= j < i + 1 && #[trigger] out.deep_view()[a] == self@.revisions[j] by {
                        if a < pre.len() {
                            let j = choose|j: int|
                                0 <= j < i && #[trigger] pre[a] == self@.revisions[j];
                            assert(out.deep_view()[a] == self@.revisions[j]);
                        } else {
                            assert(out.deep_view()[a] == self@.revisions[i as int]);
                        }
                    }
                    assert forall|a: int, b: int|
                        0 <= a < b < out.deep_view().len() implies (#[trigger] out.deep_view()[a]).revision
                        < (#[trigger] out.deep_view()[b]).revision by {
                        if b == out.deep_view().len() - 1 {
                            let j = choose|j: int|
                                0 <= j < i && #[trigger] pre[a] == self@.revisions[j];
                            assert(self@.revisions[j].object_group_id == group_id@);
                            assert(self@.revisions[i as int].object_group_id == group_id@);
                            assert(out.deep_view()[b] == self@.revisions[i as int]);
                        }
                    }
                }
            }
            i = i + 1;
        }
        proof {
            assert(self@.revisions.take(self@.revisions.len() as int) =~= self@.revisions);
        }
        out
    }
}

} // verus!
