//! The laws of the moderation core, proved once and for all over the
//! transition functions of [`crate::repository::RepoState`].

use vstd::prelude::*;

use crate::error::RepoError;
use crate::models::actions;
use crate::repository::lemma_new_user_wf;
use crate::repository::lemma_user_idx_of;
use crate::repository::RepoState;
use crate::role::Role;

verus! {

/// In every well-formed state, no warning count is negative.
pub proof fn lemma_warning_counts_nonnegative(st: RepoState)
    requires
        st.wf(),
    ensures
        forall|i: int| 0 <= i < st.users.len() ==> (#[trigger] st.users[i]).warns >= 0,
{
}

/// Removing a warning at count zero always fails with `NotAllowed` and
/// changes nothing, for every actor the operation admits.
pub proof fn lemma_un_warn_at_zero_fails(st: RepoState, by: i64, user: i64, now: i64)
    requires
        st.wf(),
        st.has_user(by),
        st.has_user(user),
        st.user_of(by).role.rank() >= Role::Moderator.rank(),
        st.user_of(user).role.rank() <= Role::User.rank(),
        st.user_of(user).warns == 0,
    ensures
        st.spec_un_warn(by, user, now).0 == st,
        st.spec_un_warn(by, user, now).1 == Err::<(), RepoError>(RepoError::NotAllowed),
{
}

/// Blocking moves a target from `User` to `Blocked` and nothing else:
/// on success the target held `User`, it now holds `Blocked`, and every
/// other account is untouched; on a target in any other role the call
/// fails with `InvalidRole` and changes nothing.
pub proof fn lemma_block_transition(st: RepoState, by: i64, user: i64, now: i64)
    requires
        st.wf(),
    ensures
        ({
            let (s, r) = st.spec_block_user(by, user, now);
            r is Ok ==> {
                let i = st.user_idx(user);
                &&& st.user_of(user).role == Role::User
                &&& s.users[i].role == Role::Blocked
                &&& s.users[i].warns == st.users[i].warns
                &&& forall|k: int|
                    0 <= k < st.users.len() && k != i ==> s.users[k] == st.users[k]
            }
        }),
        ({
            let (s, r) = st.spec_block_user(by, user, now);
            st.has_user(by) && st.has_user(user) && st.user_of(by).role.rank()
                >= Role::Moderator.rank() && st.user_of(user).role != Role::User ==> s == st && r
                == Err::<(), RepoError>(RepoError::InvalidRole)
        }),
{
}

/// Unblocking moves a target from `Blocked` back to `User` and nothing
/// else, and fails with `InvalidRole` on any other role.
pub proof fn lemma_unblock_transition(st: RepoState, by: i64, user: i64, now: i64)
    requires
        st.wf(),
    ensures
        ({
            let (s, r) = st.spec_unblock_user(by, user, now);
            r is Ok ==> {
                let i = st.user_idx(user);
                &&& st.user_of(user).role == Role::Blocked
                &&& s.users[i].role == Role::User
                &&& s.users[i].warns == st.users[i].warns
                &&& forall|k: int|
                    0 <= k < st.users.len() && k != i ==> s.users[k] == st.users[k]
            }
        }),
        ({
            let (s, r) = st.spec_unblock_user(by, user, now);
            st.has_user(by) && st.has_user(user) && st.user_of(by).role.rank()
                >= Role::Moderator.rank() && st.user_of(user).role != Role::Blocked ==> s == st && r
                == Err::<(), RepoError>(RepoError::InvalidRole)
        }),
{
}

/// Promotion moves a target from `User` to `Moderator` and nothing
/// else; on an account whose role is `Moderator`, `Blocked` or
/// `Creator` it always fails with `InvalidRole` and never mutates
/// state.
pub proof fn lemma_promote_transition(st: RepoState, by: i64, user: i64, now: i64)
    requires
        st.wf(),
    ensures
        ({
            let (s, r) = st.spec_promote_user(by, user, now);
            r is Ok ==> {
                let i = st.user_idx(user);
                &&& st.user_of(by).role == Role::Creator
                &&& st.user_of(user).role == Role::User
                &&& s.users[i].role == Role::Moderator
                &&& s.users[i].warns == st.users[i].warns
                &&& forall|k: int|
                    0 <= k < st.users.len() && k != i ==> s.users[k] == st.users[k]
            }
        }),
        ({
            let (s, r) = st.spec_promote_user(by, user, now);
            st.has_user(by) && st.has_user(user) && st.user_of(by).role == Role::Creator
                && st.user_of(user).role != Role::User ==> s == st && r == Err::<
                (),
                RepoError,
            >(RepoError::InvalidRole)
        }),
{
}

/// Demotion moves a target from `Moderator` back to `User` and nothing
/// else, and fails with `InvalidRole` on any other role.
pub proof fn lemma_demote_transition(st: RepoState, by: i64, user: i64, now: i64)
    requires
        st.wf(),
    ensures
        ({
            let (s, r) = st.spec_demote_user(by, user, now);
            r is Ok ==> {
                let i = st.user_idx(user);
                &&& st.user_of(by).role == Role::Creator
                &&& st.user_of(user).role == Role::Moderator
                &&& s.users[i].role == Role::User
                &&& s.users[i].warns == st.users[i].warns
                &&& forall|k: int|
                    0 <= k < st.users.len() && k != i ==> s.users[k] == st.users[k]
            }
        }),
        ({
            let (s, r) = st.spec_demote_user(by, user, now);
            st.has_user(by) && st.has_user(user) && st.user_of(by).role == Role::Creator
                && st.user_of(user).role != Role::Moderator ==> s == st && r == Err::<
                (),
                RepoError,
            >(RepoError::InvalidRole)
        }),
{
}

/// The warn threshold: a `Moderator`-or-above actor warning a
/// `User`-role target whose count is about to reach the threshold
/// blocks the target on exactly that call, and exactly one `BlockUser`
/// entry appears right after the `WarnUser` entry of that call; below
/// the threshold the call adds one warning, one `WarnUser` entry, and
/// keeps the role.
pub proof fn lemma_warn_threshold(st: RepoState, by: i64, user: i64, now: i64)
    requires
        st.wf(),
        st.has_user(by),
        st.has_user(user),
        st.user_of(by).role.rank() >= Role::Moderator.rank(),
        st.user_of(user).role == Role::User,
        st.user_of(user).warns < i64::MAX,
        st.can_log(2),
    ensures
        ({
            let (s, r) = st.spec_warn(by, user, now);
            let i = st.user_idx(user);
            let w = st.user_of(user).warns + 1;
            let n = st.actions.len() as int;
            w >= st.max_warns ==> {
                &&& r == Ok::<bool, RepoError>(true)
                &&& s.users[i].role == Role::Blocked
                &&& s.users[i].warns == w
                &&& s.actions.len() == n + 2
                &&& s.actions.subrange(0, n) == st.actions
                &&& s.actions[n].action_type == actions::Type::WarnUser
                &&& s.actions[n].user_id == user
                &&& s.actions[n + 1].action_type == actions::Type::BlockUser
                &&& s.actions[n + 1].user_id == user
            }
        }),
        ({
            let (s, r) = st.spec_warn(by, user, now);
            let i = st.user_idx(user);
            let w = st.user_of(user).warns + 1;
            let n = st.actions.len() as int;
            w < st.max_warns ==> {
                &&& r == Ok::<bool, RepoError>(false)
                &&& s.users[i].role == Role::User
                &&& s.users[i].warns == w
                &&& s.actions.len() == n + 1
                &&& s.actions.subrange(0, n) == st.actions
                &&& s.actions[n].action_type == actions::Type::WarnUser
                &&& s.actions[n].user_id == user
            }
        }),
{
    let (s, r) = st.spec_warn(by, user, now);
    let n = st.actions.len() as int;
    let w = st.user_of(user).warns + 1;
    if w >= st.max_warns {
        assert(s.actions.subrange(0, n) =~= st.actions);
    } else {
        assert(s.actions.subrange(0, n) =~= st.actions);
    }
}

/// Registration is idempotent: when an upsert succeeds, repeating it
/// with the same id and the same display fields succeeds, changes
/// nothing at all — whatever role the second call's policy picked —
/// and in particular appends no second `CreateUser` entry; and one call
/// appends at most one audit entry.
pub proof fn lemma_upsert_idempotent(
    st: RepoState,
    id: i64,
    role1: Role,
    role2: Role,
    username: Option<String>,
    nickname: String,
    now1: i64,
    now2: i64,
)
    requires
        st.wf(),
        st.spec_new_user(id, role1, username, nickname, now1).1 == Ok::<(), RepoError>(()),
    ensures
        ({
            let s1 = st.spec_new_user(id, role1, username, nickname, now1).0;
            let (s2, r2) = s1.spec_new_user(id, role2, username, nickname, now2);
            &&& s1.wf()
            &&& s1.actions.len() <= st.actions.len() + 1
            &&& r2 == Ok::<(), RepoError>(())
            &&& s2 == s1
        }),
{
    lemma_new_user_wf(st, id, role1, username, nickname, now1);
    let s1 = st.spec_new_user(id, role1, username, nickname, now1).0;
    let (s2, r2) = s1.spec_new_user(id, role2, username, nickname, now2);
    if st.has_user(id) {
        let i = st.user_idx(id);
        assert(s1.users[i].id == id);
        lemma_user_idx_of(s1, i);
        assert(!s1.handle_taken_by_other(id, username)) by {
            if s1.handle_taken_by_other(id, username) {
                let k = choose|k: int|
                    0 <= k < s1.users.len() && (#[trigger] s1.users[k]).id != id
                        && s1.users[k].username is Some && s1.users[k].username->0@ == username->0@;
                assert(s1.users[k] == st.users[k]);
                assert(st.handle_taken_by_other(id, username));
            }
        }
        assert(s2.users =~= s1.users);
        assert(s2 =~= s1);
    } else {
        let i = st.users.len() as int;
        assert(s1.users[i].id == id);
        lemma_user_idx_of(s1, i);
        assert(!s1.handle_taken_by_other(id, username)) by {
            if s1.handle_taken_by_other(id, username) {
                let k = choose|k: int|
                    0 <= k < s1.users.len() && (#[trigger] s1.users[k]).id != id
                        && s1.users[k].username is Some && s1.users[k].username->0@ == username->0@;
                assert(k < st.users.len());
                assert(s1.users[k] == st.users[k]);
                assert(st.handle_taken_by_other(id, username));
            }
        }
        assert(s2.users =~= s1.users);
        assert(s2 =~= s1);
    }
}

/// Creating a command under a taken name fails with `AlreadyExists` and
/// leaves everything — in particular the existing command's action,
/// creator and use count — untouched.
pub proof fn lemma_create_existing_name_fails(
    st: RepoState,
    name: String,
    action: String,
    creator: i64,
    now: i64,
)
    requires
        st.wf(),
        st.has_user(creator),
        st.user_of(creator).role != Role::Blocked,
        st.has_command(name@),
    ensures
        st.spec_create_command(name, action, creator, now).0 == st,
        st.spec_create_command(name, action, creator, now).1 == Err::<(), RepoError>(
            RepoError::AlreadyExists,
        ),
{
}

/// The audit log is append-only: no operation mutates or deletes an
/// entry once written — whatever a call does or fails to do, the log it
/// leaves behind starts with the log it found.
pub proof fn lemma_audit_log_append_only(
    st: RepoState,
    by: i64,
    user: i64,
    role: Role,
    username: Option<String>,
    nickname: String,
    name: String,
    action: String,
    now: i64,
)
    requires
        st.wf(),
    ensures
        st.actions.is_prefix_of(st.spec_new_user(user, role, username, nickname, now).0.actions),
        st.actions.is_prefix_of(st.spec_change_nickname(by, user, nickname).0.actions),
        st.actions.is_prefix_of(st.spec_block_user(by, user, now).0.actions),
        st.actions.is_prefix_of(st.spec_unblock_user(by, user, now).0.actions),
        st.actions.is_prefix_of(st.spec_promote_user(by, user, now).0.actions),
        st.actions.is_prefix_of(st.spec_demote_user(by, user, now).0.actions),
        st.actions.is_prefix_of(st.spec_warn(by, user, now).0.actions),
        st.actions.is_prefix_of(st.spec_un_warn(by, user, now).0.actions),
        st.actions.is_prefix_of(st.spec_create_command(name, action, by, now).0.actions),
        st.actions.is_prefix_of(st.spec_update_command(name, by, action, now).0.actions),
        st.actions.is_prefix_of(st.spec_delete_command(name, by, now).0.actions),
        st.actions.is_prefix_of(st.spec_use_command(name, by, now).0.actions),
{
    assert(st.actions.is_prefix_of(st.actions)) by {
        assert(st.actions =~= st.actions.subrange(0, st.actions.len() as int));
    }
    assert(st.actions.is_prefix_of(st.spec_warn(by, user, now).0.actions)) by {
        let s = st.spec_warn(by, user, now).0;
        assert(st.actions =~= s.actions.subrange(0, st.actions.len() as int));
    }
    assert(st.actions.is_prefix_of(st.spec_new_user(user, role, username, nickname, now).0.actions))
        by {
        let s = st.spec_new_user(user, role, username, nickname, now).0;
        assert(st.actions =~= s.actions.subrange(0, st.actions.len() as int));
    }
    assert(st.actions.is_prefix_of(st.spec_block_user(by, user, now).0.actions)) by {
        let s = st.spec_block_user(by, user, now).0;
        assert(st.actions =~= s.actions.subrange(0, st.actions.len() as int));
    }
    assert(st.actions.is_prefix_of(st.spec_unblock_user(by, user, now).0.actions)) by {
        let s = st.spec_unblock_user(by, user, now).0;
        assert(st.actions =~= s.actions.subrange(0, st.actions.len() as int));
    }
    assert(st.actions.is_prefix_of(st.spec_promote_user(by, user, now).0.actions)) by {
        let s = st.spec_promote_user(by, user, now).0;
        assert(st.actions =~= s.actions.subrange(0, st.actions.len() as int));
    }
    assert(st.actions.is_prefix_of(st.spec_demote_user(by, user, now).0.actions)) by {
        let s = st.spec_demote_user(by, user, now).0;
        assert(st.actions =~= s.actions.subrange(0, st.actions.len() as int));
    }
    assert(st.actions.is_prefix_of(st.spec_un_warn(by, user, now).0.actions)) by {
        let s = st.spec_un_warn(by, user, now).0;
        assert(st.actions =~= s.actions.subrange(0, st.actions.len() as int));
    }
    assert(st.actions.is_prefix_of(st.spec_create_command(name, action, by, now).0.actions)) by {
        let s = st.spec_create_command(name, action, by, now).0;
        assert(st.actions =~= s.actions.subrange(0, st.actions.len() as int));
    }
    assert(st.actions.is_prefix_of(st.spec_update_command(name, by, action, now).0.actions)) by {
        let s = st.spec_update_command(name, by, action, now).0;
        assert(st.actions =~= s.actions.subrange(0, st.actions.len() as int));
    }
    assert(st.actions.is_prefix_of(st.spec_delete_command(name, by, now).0.actions)) by {
        let s = st.spec_delete_command(name, by, now).0;
        assert(st.actions =~= s.actions.subrange(0, st.actions.len() as int));
    }
    assert(st.actions.is_prefix_of(st.spec_use_command(name, by, now).0.actions)) by {
        let s = st.spec_use_command(name, by, now).0;
        assert(st.actions =~= s.actions.subrange(0, st.actions.len() as int));
    }
    assert(st.actions.is_prefix_of(st.spec_change_nickname(by, user, nickname).0.actions)) by {
        let s = st.spec_change_nickname(by, user, nickname).0;
        assert(st.actions =~= s.actions.subrange(0, st.actions.len() as int));
    }
}

/// The ownership boundary of command edits: an actor that neither
/// created the command nor holds at least `Moderator` always fails with
/// `Forbidden` and changes nothing, while a `Moderator`-or-above actor
/// succeeds regardless of ownership.
pub proof fn lemma_ownership_boundary(st: RepoState, id: String, by: i64, action: String, now: i64)
    requires
        st.wf(),
        st.has_command(id@),
        st.has_user(by),
    ensures
        by != st.command_of(id@).creator_id && st.user_of(by).role.rank() < Role::Moderator.rank()
            ==> st.spec_update_command(id, by, action, now) == (
            st,
            Err::<(), RepoError>(RepoError::Forbidden),
        ) && st.spec_delete_command(id, by, now) == (
            st,
            Err::<(), RepoError>(RepoError::Forbidden),
        ),
        st.user_of(by).role.rank() >= Role::Moderator.rank() && st.can_log(1)
            ==> st.spec_update_command(id, by, action, now).1 == Ok::<(), RepoError>(())
            && st.spec_delete_command(id, by, now).1 == Ok::<(), RepoError>(()),
{
}

} // verus!
