//! Update handlers: lifecycle status changes and adding users to a
//! project.  Both mirror idempotent store updates: a missing target is a
//! no-op, as an update matching no document is.

use vstd::prelude::*;

use crate::common::{Right, Status, User, UserView};
use crate::dataset_object_group::ObjectGroupView;
use crate::error::ApiError;
use crate::project_model::ProjectView;
use crate::store::{lemma_links_unchanged, same_except_groups, same_except_projects, wf,
    MetaStore};

verus! {

/// `g` with its status replaced.
pub open spec fn with_status(g: ObjectGroupView, status: Status) -> ObjectGroupView {
    ObjectGroupView { status: status, ..g }
}

/// The user entry that `add_user_to_project` grants: both rights.
pub open spec fn granted_user(uid: Seq<char>) -> UserView {
    UserView { user_id: uid, rights: seq![Right::Read, Right::Write] }
}

/// `p` after adding `uid` with both rights, unless an identical entry is
/// already present.
pub open spec fn with_user_added(p: ProjectView, uid: Seq<char>) -> ProjectView {
    if p.users.contains(granted_user(uid)) {
        p
    } else {
        ProjectView { users: p.users.push(granted_user(uid)), ..p }
    }
}

/// Sets the status of object group `id`; a missing group is a no-op.
#[verifier::loop_isolation(false)]
pub fn update_object_group_status(store: &mut MetaStore, id: &str, status: Status) -> (r: Result<
    (),
    ApiError,
>)
    requires
        wf(old(store)@),
    ensures
        wf(final(store)@),
        r is Ok,
        final(store)@.object_groups.len() == old(store)@.object_groups.len(),
        forall|i: int|
            0 <= i < old(store)@.object_groups.len() ==> #[trigger] final(store)@.object_groups[i]
                == if old(store)@.object_groups[i].id == id@ {
                with_status(old(store)@.object_groups[i], status)
            } else {
                old(store)@.object_groups[i]
            },
        same_except_groups(old(store)@, final(store)@),
{
    let ghost old_sv = store@;
    match store.find_object_group(id) {
        None => {
            proof {
                assert(store@.object_groups =~= old_sv.object_groups);
            }
            Ok(())
        },
        Some(gi) => {
            let mut g = store.object_groups[gi].clone();
            g.status = status;
            let ghost g_view = g@;
            let ghost pre = store@.object_groups;
            store.object_groups[gi] = g;
            proof {
                assert(store@.object_groups =~= pre.update(gi as int, g_view));
                assert forall|i: int|
                    0 <= i < old_sv.object_groups.len() implies #[trigger] store@.object_groups[i]
                    == if old_sv.object_groups[i].id == id@ {
                    with_status(old_sv.object_groups[i], status)
                } else {
                    old_sv.object_groups[i]
                } by {
                    if i != gi {
                        assert(store@.object_groups[i] == old_sv.object_groups[i]);
                        if old_sv.object_groups[i].id == id@ {
                            assert(old_sv.object_groups[gi as int].id == id@);
                            assert(false);
                        }
                    }
                }
                assert forall|a: int, b: int|
                    0 <= a < b < store@.object_groups.len() implies (#[trigger] store@.object_groups[a]).id
                    != (#[trigger] store@.object_groups[b]).id by {
                    assert(store@.object_groups[a].id == old_sv.object_groups[a].id);
                    assert(store@.object_groups[b].id == old_sv.object_groups[b].id);
                }
                assert forall|g2: int, r2: int|
                    #![trigger store@.object_groups[g2], store@.revisions[r2]]
                    0 <= g2 < store@.object_groups.len() && 0 <= r2 < store@.revisions.len()
                        && store@.revisions[r2].object_group_id == store@.object_groups[g2].id
                    implies 0 <= store@.revisions[r2].revision
                    < store@.object_groups[g2].revision_counter && store@.revisions[r2].dataset_id
                    == store@.object_groups[g2].dataset_id by {
                    assert(old_sv.revisions[r2].object_group_id == old_sv.object_groups[g2].id);
                }
                assert forall|r2: int|
                    0 <= r2 < store@.revisions.len() implies crate::store::group_named(
                    store@.object_groups,
                    (#[trigger] store@.revisions[r2]).object_group_id,
                ) by {
                    assert(crate::store::group_named(
                        old_sv.object_groups,
                        old_sv.revisions[r2].object_group_id,
                    ));
                    let gw = choose|gw: int|
                        0 <= gw < old_sv.object_groups.len()
                            && (#[trigger] old_sv.object_groups[gw]).id
                            == old_sv.revisions[r2].object_group_id;
                    assert(store@.object_groups[gw].id == old_sv.object_groups[gw].id);
                }
                lemma_links_unchanged(old_sv, store@);
                assert(wf(store@));
            }
            Ok(())
        },
    }
}

/// Grants `user_id` both rights on project `project_id`, as `$addToSet`
/// does: adding an entry that is already present changes nothing, and a
/// missing project is a no-op.
#[verifier::loop_isolation(false)]
pub fn add_user_to_project(store: &mut MetaStore, project_id: &str, user_id: &str) -> (r: Result<
    (),
    ApiError,
>)
    requires
        wf(old(store)@),
    ensures
        wf(final(store)@),
        r is Ok,
        final(store)@.projects.len() == old(store)@.projects.len(),
        forall|i: int|
            0 <= i < old(store)@.projects.len() ==> #[trigger] final(store)@.projects[i]
                == if old(store)@.projects[i].id == project_id@ {
                with_user_added(old(store)@.projects[i], user_id@)
            } else {
                old(store)@.projects[i]
            },
        same_except_projects(old(store)@, final(store)@),
{
    let ghost old_sv = store@;
    match store.find_project(project_id) {
        None => {
            proof {
                assert(store@.projects =~= old_sv.projects);
            }
            Ok(())
        },
        Some(pi) => {
            let mut p = store.projects[pi].clone();
            let wanted: String = user_id.to_owned();
            let mut present: bool = false;
            let mut u: usize = 0;
            while u < p.users.len()
                invariant
                    u <= p.users@.len(),
                    wanted@ == user_id@,
                    p@ == old_sv.projects[pi as int],
                    present ==> p@.users.contains(granted_user(user_id@)),
                    !present ==> forall|j: int|
                        0 <= j < u ==> #[trigger] p@.users[j] != granted_user(user_id@),
                decreases p.users@.len() - u,
            {
                if p.users[u].user_id == wanted && p.users[u].rights.len() == 2 && p.users[u].rights[0]
                    == Right::Read && p.users[u].rights[1] == Right::Write {
                    proof {
                        assert(p@.users[u as int].rights =~= granted_user(user_id@).rights);
                        assert(p@.users[u as int] == granted_user(user_id@));
                    }
                    present = true;
                } else {
                    proof {
                        if p@.users[u as int] == granted_user(user_id@) {
                            assert(p@.users[u as int].user_id == user_id@);
                            assert(p@.users[u as int].rights == granted_user(user_id@).rights);
                            assert(p.users@[u as int].rights@.len() == 2);
                            assert(p.users@[u as int].rights@[0] == Right::Read);
                            assert(p.users@[u as int].rights@[1] == Right::Write);
                            assert(false);
                        }
                    }
                }
                u = u + 1;
            }
            if !present {
                let rights: Vec<Right> = vec![Right::Read, Right::Write];
                let ghost pre_users = p.users.deep_view();
                p.users.push(User { user_id: wanted, rights });
                proof {
                    assert(p.users.deep_view() =~= pre_users.push(granted_user(user_id@)));
                }
            }
            let ghost p_view = p@;
            let ghost pre = store@.projects;
            store.projects[pi] = p;
            proof {
                assert(store@.projects =~= pre.update(pi as int, p_view));
                assert(p_view == with_user_added(old_sv.projects[pi as int], user_id@));
                assert forall|i: int|
                    0 <= i < old_sv.projects.len() implies #[trigger] store@.projects[i]
                    == if old_sv.projects[i].id == project_id@ {
                    with_user_added(old_sv.projects[i], user_id@)
                } else {
                    old_sv.projects[i]
                } by {
                    if i != pi {
                        assert(store@.projects[i] == old_sv.projects[i]);
                        if old_sv.projects[i].id == project_id@ {
                            assert(old_sv.projects[pi as int].id == project_id@);
                            assert(false);
                        }
                    }
                }
                assert forall|a: int, b: int|
                    0 <= a < b < store@.projects.len() implies (#[trigger] store@.projects[a]).id
                    != (#[trigger] store@.projects[b]).id by {
                    assert(store@.projects[a].id == old_sv.projects[a].id);
                    assert(store@.projects[b].id == old_sv.projects[b].id);
                }
                lemma_links_unchanged(old_sv, store@);
                assert(wf(store@));
            }
            Ok(())
        },
    }
}

} // verus!
