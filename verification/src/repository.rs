use vstd::prelude::*;

use crate::error::RepoError;
use crate::models::actions;
use crate::models::commands;
use crate::models::users;
use crate::role::Role;

verus! {

/// The warn threshold used when the options give none.
pub const DEFAULT_MAX_WARNS: i64 = 5;

/// The mathematical state of the store: the three tables and the warn
/// threshold. Every operation of [`Repository`] is specified as a pure
/// transition on this state.
#[verifier::ext_equal]
pub struct RepoState {
    pub users: Seq<users::Model>,
    pub commands: Seq<commands::Model>,
    pub actions: Seq<actions::Model>,
    pub max_warns: int,
}

impl RepoState {
    /// Some account has the id.
    pub open spec fn has_user(self, id: i64) -> bool {
        exists|i: int| 0 <= i < self.users.len() && (#[trigger] self.users[i]).id == id
    }

    /// The index of the account with the id (unique under `wf`).
    pub open spec fn user_idx(self, id: i64) -> int {
        choose|i: int| 0 <= i < self.users.len() && (#[trigger] self.users[i]).id == id
    }

    /// The account with the id.
    pub open spec fn user_of(self, id: i64) -> users::Model {
        self.users[self.user_idx(id)]
    }

    /// Some account holds the handle.
    pub open spec fn has_handle(self, handle: Seq<char>) -> bool {
        exists|i: int|
            0 <= i < self.users.len() && (#[trigger] self.users[i]).username is Some
                && self.users[i].username->0@ == handle
    }

    /// The index of the account holding the handle (unique under `wf`).
    pub open spec fn handle_idx(self, handle: Seq<char>) -> int {
        choose|i: int|
            0 <= i < self.users.len() && (#[trigger] self.users[i]).username is Some
                && self.users[i].username->0@ == handle
    }

    /// An account other than `id` holds the handle, so an upsert of `id`
    /// with it must be rejected.
    pub open spec fn handle_taken_by_other(self, id: i64, username: Option<String>) -> bool {
        username is Some && exists|i: int|
            0 <= i < self.users.len() && (#[trigger] self.users[i]).id != id
                && self.users[i].username is Some && self.users[i].username->0@ == username->0@
    }

    /// Some command has the name.
    pub open spec fn has_command(self, name: Seq<char>) -> bool {
        exists|i: int| 0 <= i < self.commands.len() && (#[trigger] self.commands[i]).name@ == name
    }

    /// The index of the command with the name (unique under `wf`).
    pub open spec fn command_idx(self, name: Seq<char>) -> int {
        choose|i: int| 0 <= i < self.commands.len() && (#[trigger] self.commands[i]).name@ == name
    }

    /// The command with the name.
    pub open spec fn command_of(self, name: Seq<char>) -> commands::Model {
        self.commands[self.command_idx(name)]
    }

    /// The audit log has room for `n` more entries with `i64` ids.
    pub open spec fn can_log(self, n: int) -> bool {
        self.actions.len() + n <= i64::MAX
    }

    /// Well-formedness of the store, established by the constructor and
    /// preserved by every operation:
    /// account ids are unique; warning counts and use counts are never
    /// negative; handles are unique among the accounts that have one;
    /// command names are unique, non-empty primary keys; commands and
    /// audit entries refer to existing accounts (the foreign keys of the
    /// schema); audit entry ids are `1..` in order of creation.
    pub open spec fn wf(self) -> bool {
        &&& forall|i: int, j: int|
            0 <= i < j < self.users.len() ==> (#[trigger] self.users[i]).id != (
            #[trigger] self.users[j]).id
        &&& forall|i: int| 0 <= i < self.users.len() ==> (#[trigger] self.users[i]).warns >= 0
        &&& forall|i: int, j: int|
            0 <= i < j < self.users.len() && (#[trigger] self.users[i]).username is Some && (
            #[trigger] self.users[j]).username is Some
                ==> self.users[i].username->0@ != self.users[j].username->0@
        &&& forall|i: int, j: int|
            0 <= i < j < self.commands.len() ==> (#[trigger] self.commands[i]).name@ != (
            #[trigger] self.commands[j]).name@
        &&& forall|i: int|
            0 <= i < self.commands.len() ==> (#[trigger] self.commands[i]).name@.len() > 0
        &&& forall|i: int|
            0 <= i < self.commands.len() ==> (#[trigger] self.commands[i]).times_used >= 0
        &&& forall|i: int|
            0 <= i < self.commands.len() ==> self.has_user((#[trigger] self.commands[i]).creator_id)
        &&& forall|i: int| 0 <= i < self.actions.len() ==> (#[trigger] self.actions[i]).id == i + 1
        &&& forall|i: int|
            0 <= i < self.actions.len() ==> self.has_user((#[trigger] self.actions[i]).user_id)
        &&& self.actions.len() <= i64::MAX
    }

    /// The state with one audit entry appended, subject `user_id`,
    /// payload `d`, recorded at `now`.
    pub open spec fn log(self, user_id: i64, t: actions::Type, d: actions::Description, now: i64) -> RepoState {
        RepoState {
            actions: self.actions.push(
                actions::Model {
                    id: (self.actions.len() + 1) as i64,
                    user_id,
                    action_type: t,
                    description: d,
                    created_at: now,
                },
            ),
            ..self
        }
    }

    /// The state with the role of the account at `idx` replaced.
    pub open spec fn with_role(self, idx: int, role: Role) -> RepoState {
        RepoState {
            users: self.users.update(idx, users::Model { role, ..self.users[idx] }),
            ..self
        }
    }

    /// Registration as an idempotent upsert. If the id is unknown, a new
    /// account with the given role is created and one `CreateUser` audit
    /// entry appended; if it is known, only `username` and `nickname`
    /// are refreshed and the role, the warning count and the audit log
    /// stay untouched. An upsert whose handle is already held by a
    /// different account is rejected with `AlreadyExists` (the handle
    /// stays with its holder).
    pub open spec fn spec_new_user(
        self,
        id: i64,
        role: Role,
        username: Option<String>,
        nickname: String,
        now: i64,
    ) -> (RepoState, Result<(), RepoError>) {
        if self.handle_taken_by_other(id, username) {
            (self, Err(RepoError::AlreadyExists))
        } else if self.has_user(id) {
            let i = self.user_idx(id);
            (
                RepoState {
                    users: self.users.update(
                        i,
                        users::Model { username: username, nickname: nickname, ..self.users[i] },
                    ),
                    ..self
                },
                Ok(()),
            )
        } else if !self.can_log(1) {
            (self, Err(RepoError::InternalError))
        } else {
            let created = RepoState {
                users: self.users.push(
                    users::Model { id, role, username, nickname, warns: 0, created_at: now },
                ),
                ..self
            };
            (created.log(id, actions::Type::CreateUser, actions::Description::spec_empty(), now), Ok(()))
        }
    }
    /// Renaming: the actor may rename itself; renaming someone else takes
    /// at least `Moderator`. Only the display name changes; no audit
    /// entry is written.
    pub open spec fn spec_change_nickname(self, by: i64, id: i64, nickname: String) -> (
        RepoState,
        Result<(), RepoError>,
    ) {
        if !self.has_user(by) {
            (self, Err(RepoError::NotFound))
        } else if by != id && self.user_of(by).role.rank() < Role::Moderator.rank() {
            (self, Err(RepoError::Forbidden))
        } else if !self.has_user(id) {
            (self, Err(RepoError::NotFound))
        } else {
            let i = self.user_idx(id);
            (
                RepoState {
                    users: self.users.update(
                        i,
                        users::Model { nickname: nickname, ..self.users[i] },
                    ),
                    ..self
                },
                Ok(()),
            )
        }
    }

    /// Blocking: a `Moderator`-or-above actor moves a `User`-role target
    /// to `Blocked` and one `BlockUser` entry records who did it.
    pub open spec fn spec_block_user(self, by: i64, user: i64, now: i64) -> (
        RepoState,
        Result<(), RepoError>,
    ) {
        if !self.has_user(by) || !self.has_user(user) {
            (self, Err(RepoError::NotFound))
        } else if self.user_of(by).role.rank() < Role::Moderator.rank() {
            (self, Err(RepoError::Forbidden))
        } else if self.user_of(user).role != Role::User {
            (self, Err(RepoError::InvalidRole))
        } else if !self.can_log(1) {
            (self, Err(RepoError::InternalError))
        } else {
            (
                self.with_role(self.user_idx(user), Role::Blocked).log(
                    user,
                    actions::Type::BlockUser,
                    actions::Description::spec_by(by),
                    now,
                ),
                Ok(()),
            )
        }
    }

    /// Unblocking: a `Moderator`-or-above actor moves a `Blocked` target
    /// back to `User`.
    pub open spec fn spec_unblock_user(self, by: i64, user: i64, now: i64) -> (
        RepoState,
        Result<(), RepoError>,
    ) {
        if !self.has_user(by) || !self.has_user(user) {
            (self, Err(RepoError::NotFound))
        } else if self.user_of(by).role.rank() < Role::Moderator.rank() {
            (self, Err(RepoError::Forbidden))
        } else if self.user_of(user).role != Role::Blocked {
            (self, Err(RepoError::InvalidRole))
        } else if !self.can_log(1) {
            (self, Err(RepoError::InternalError))
        } else {
            (
                self.with_role(self.user_idx(user), Role::User).log(
                    user,
                    actions::Type::UnblockUser,
                    actions::Description::spec_by(by),
                    now,
                ),
                Ok(()),
            )
        }
    }

    /// Promotion: only the `Creator` promotes, and only a `User`-role
    /// target, to `Moderator`.
    pub open spec fn spec_promote_user(self, by: i64, user: i64, now: i64) -> (
        RepoState,
        Result<(), RepoError>,
    ) {
        if !self.has_user(by) || !self.has_user(user) {
            (self, Err(RepoError::NotFound))
        } else if self.user_of(by).role != Role::Creator {
            (self, Err(RepoError::Forbidden))
        } else if self.user_of(user).role != Role::User {
            (self, Err(RepoError::InvalidRole))
        } else if !self.can_log(1) {
            (self, Err(RepoError::InternalError))
        } else {
            (
                self.with_role(self.user_idx(user), Role::Moderator).log(
                    user,
                    actions::Type::PromoteUser,
                    actions::Description::spec_by(by),
                    now,
                ),
                Ok(()),
            )
        }
    }

    /// Demotion: only the `Creator` demotes, and only a `Moderator`-role
    /// target, back to `User`.
    pub open spec fn spec_demote_user(self, by: i64, user: i64, now: i64) -> (
        RepoState,
        Result<(), RepoError>,
    ) {
        if !self.has_user(by) || !self.has_user(user) {
            (self, Err(RepoError::NotFound))
        } else if self.user_of(by).role != Role::Creator {
            (self, Err(RepoError::Forbidden))
        } else if self.user_of(user).role != Role::Moderator {
            (self, Err(RepoError::InvalidRole))
        } else if !self.can_log(1) {
            (self, Err(RepoError::InternalError))
        } else {
            (
                self.with_role(self.user_idx(user), Role::User).log(
                    user,
                    actions::Type::DemoteUser,
                    actions::Description::spec_by(by),
                    now,
                ),
                Ok(()),
            )
        }
    }
    /// Warning: a `Moderator`-or-above actor warns a target at or below
    /// `User`. The count rises by one and a `WarnUser` entry records the
    /// actor and the new count. When the new count reaches the threshold
    /// and the target still holds the `User` role, the same call blocks
    /// the target and appends the `BlockUser` entry too, and the result
    /// `Ok(true)` says so; a target already `Blocked` keeps counting
    /// without a second transition.
    pub open spec fn spec_warn(self, by: i64, user: i64, now: i64) -> (
        RepoState,
        Result<bool, RepoError>,
    ) {
        if !self.has_user(by) || !self.has_user(user) {
            (self, Err(RepoError::NotFound))
        } else if self.user_of(by).role.rank() < Role::Moderator.rank() {
            (self, Err(RepoError::Forbidden))
        } else if self.user_of(user).role.rank() > Role::User.rank() {
            (self, Err(RepoError::InvalidRole))
        } else if self.user_of(user).warns == i64::MAX {
            (self, Err(RepoError::InternalError))
        } else {
            let i = self.user_idx(user);
            let w = (self.user_of(user).warns + 1) as i64;
            let cascade = w >= self.max_warns && self.user_of(user).role == Role::User;
            if cascade && !self.can_log(2) {
                (self, Err(RepoError::InternalError))
            } else if !cascade && !self.can_log(1) {
                (self, Err(RepoError::InternalError))
            } else {
                let warned = RepoState {
                    users: self.users.update(i, users::Model { warns: w, ..self.users[i] }),
                    ..self
                }.log(user, actions::Type::WarnUser, actions::Description::spec_warns(by, w), now);
                if cascade {
                    (
                        warned.with_role(i, Role::Blocked).log(
                            user,
                            actions::Type::BlockUser,
                            actions::Description::spec_by(by),
                            now,
                        ),
                        Ok(true),
                    )
                } else {
                    (warned, Ok(false))
                }
            }
        }
    }

    /// Removing a warning: same authorization as warning; fails with
    /// `NotAllowed` when the count is already zero, so the count never
    /// goes negative. An `UnWarnUser` entry records the actor and the
    /// new count.
    pub open spec fn spec_un_warn(self, by: i64, user: i64, now: i64) -> (
        RepoState,
        Result<(), RepoError>,
    ) {
        if !self.has_user(by) || !self.has_user(user) {
            (self, Err(RepoError::NotFound))
        } else if self.user_of(by).role.rank() < Role::Moderator.rank() {
            (self, Err(RepoError::Forbidden))
        } else if self.user_of(user).role.rank() > Role::User.rank() {
            (self, Err(RepoError::InvalidRole))
        } else if self.user_of(user).warns <= 0 {
            (self, Err(RepoError::NotAllowed))
        } else if !self.can_log(1) {
            (self, Err(RepoError::InternalError))
        } else {
            let i = self.user_idx(user);
            let w = (self.user_of(user).warns - 1) as i64;
            (
                RepoState {
                    users: self.users.update(i, users::Model { warns: w, ..self.users[i] }),
                    ..self
                }.log(user, actions::Type::UnWarnUser, actions::Description::spec_warns(by, w), now),
                Ok(()),
            )
        }
    }
    /// Authorization for editing or deleting a command: its creator may,
    /// and so may any account of at least `Moderator` role.
    pub open spec fn owns_or_moderates(self, by: i64, name: Seq<char>) -> bool {
        by == self.command_of(name).creator_id || self.user_of(by).role.rank()
            >= Role::Moderator.rank()
    }

    /// Command creation: any existing, non-blocked account may create a
    /// command under a fresh name; a taken name is rejected with
    /// `AlreadyExists` and the existing command stays as it was.
    pub open spec fn spec_create_command(self, name: String, action: String, creator: i64, now: i64) -> (
        RepoState,
        Result<(), RepoError>,
    ) {
        if !self.has_user(creator) {
            (self, Err(RepoError::NotFound))
        } else if self.user_of(creator).role == Role::Blocked {
            (self, Err(RepoError::Forbidden))
        } else if self.has_command(name@) {
            (self, Err(RepoError::AlreadyExists))
        } else if !self.can_log(1) {
            (self, Err(RepoError::InternalError))
        } else {
            let st1 = RepoState {
                commands: self.commands.push(
                    commands::Model {
                        name: name,
                        action: action,
                        creator_id: creator,
                        times_used: 0,
                        created_at: now,
                    },
                ),
                ..self
            };
            (
                st1.log(
                    creator,
                    actions::Type::CreateCommand,
                    actions::Description {
                        by: None,
                        warns: None,
                        command: Some(name),
                        action: Some(action),
                    },
                    now,
                ),
                Ok(()),
            )
        }
    }

    /// Command edit: the creator, or a non-blocked account of at least
    /// `Moderator` role, replaces the action text.
    pub open spec fn spec_update_command(self, id: String, by: i64, action: String, now: i64) -> (
        RepoState,
        Result<(), RepoError>,
    ) {
        if !self.has_command(id@) {
            (self, Err(RepoError::CommandNotFound))
        } else if !self.has_user(by) {
            (self, Err(RepoError::NotFound))
        } else if !(self.owns_or_moderates(by, id@) && self.user_of(by).role != Role::Blocked) {
            (self, Err(RepoError::Forbidden))
        } else if !self.can_log(1) {
            (self, Err(RepoError::InternalError))
        } else {
            let c = self.command_idx(id@);
            let st1 = RepoState {
                commands: self.commands.update(
                    c,
                    commands::Model { action: action, ..self.commands[c] },
                ),
                ..self
            };
            (
                st1.log(
                    by,
                    actions::Type::EditCommand,
                    actions::Description {
                        by: None,
                        warns: None,
                        command: Some(id),
                        action: Some(action),
                    },
                    now,
                ),
                Ok(()),
            )
        }
    }

    /// Command removal: the creator or an account of at least `Moderator`
    /// role removes the command physically.
    pub open spec fn spec_delete_command(self, id: String, by: i64, now: i64) -> (
        RepoState,
        Result<(), RepoError>,
    ) {
        if !self.has_command(id@) {
            (self, Err(RepoError::CommandNotFound))
        } else if !self.has_user(by) {
            (self, Err(RepoError::NotFound))
        } else if !self.owns_or_moderates(by, id@) {
            (self, Err(RepoError::Forbidden))
        } else if !self.can_log(1) {
            (self, Err(RepoError::InternalError))
        } else {
            let c = self.command_idx(id@);
            let st1 = RepoState { commands: self.commands.remove(c), ..self };
            (
                st1.log(
                    by,
                    actions::Type::DeleteCommand,
                    actions::Description { by: None, warns: None, command: Some(id), action: None },
                    now,
                ),
                Ok(()),
            )
        }
    }

    /// Command use: any existing, non-blocked account bumps the use
    /// count of an existing command by one.
    pub open spec fn spec_use_command(self, id: String, by: i64, now: i64) -> (
        RepoState,
        Result<(), RepoError>,
    ) {
        if !self.has_user(by) {
            (self, Err(RepoError::NotFound))
        } else if self.user_of(by).role == Role::Blocked {
            (self, Err(RepoError::Forbidden))
        } else if !self.has_command(id@) {
            (self, Err(RepoError::CommandNotFound))
        } else if self.command_of(id@).times_used == i64::MAX {
            (self, Err(RepoError::InternalError))
        } else if !self.can_log(1) {
            (self, Err(RepoError::InternalError))
        } else {
            let c = self.command_idx(id@);
            let st1 = RepoState {
                commands: self.commands.update(
                    c,
                    commands::Model {
                        times_used: (self.commands[c].times_used + 1) as i64,
                        ..self.commands[c]
                    },
                ),
                ..self
            };
            (
                st1.log(
                    by,
                    actions::Type::UseCommand,
                    actions::Description { by: None, warns: None, command: Some(id), action: None },
                    now,
                ),
                Ok(()),
            )
        }
    }

    /// Audit append: records one completed mutation on an existing
    /// account and returns the id of the new entry.
    pub open spec fn spec_new_action(
        self,
        user_id: i64,
        action_type: actions::Type,
        description: actions::Description,
        now: i64,
    ) -> (RepoState, Result<i64, RepoError>) {
        if !self.has_user(user_id) {
            (self, Err(RepoError::NotFound))
        } else if !self.can_log(1) {
            (self, Err(RepoError::InternalError))
        } else {
            (
                self.log(user_id, action_type, description, now),
                Ok((self.actions.len() + 1) as i64),
            )
        }
    }
}

/// Accounts reachable in `a` stay reachable in `b` when `b` keeps every
/// account id of `a` at its index.
pub proof fn lemma_has_user_mono(a: RepoState, b: RepoState)
    requires
        a.users.len() <= b.users.len(),
        forall|k: int| 0 <= k < a.users.len() ==> (#[trigger] b.users[k]).id == a.users[k].id,
    ensures
        forall|x: i64| #[trigger] a.has_user(x) ==> b.has_user(x),
{
    assert forall|x: i64| #[trigger] a.has_user(x) implies b.has_user(x) by {
        let w = choose|w: int| 0 <= w < a.users.len() && (#[trigger] a.users[w]).id == x;
        assert(b.users[w].id == x);
    }
}

/// Replacing one account with a model that keeps its id, handle and a
/// non-negative count, followed by one audit entry on an existing
/// account, preserves well-formedness.
pub proof fn lemma_update_log_wf(
    st: RepoState,
    i: int,
    m: users::Model,
    subject: i64,
    t: actions::Type,
    d: actions::Description,
    now: i64,
)
    requires
        st.wf(),
        0 <= i < st.users.len(),
        st.can_log(1),
        st.has_user(subject),
        m.id == st.users[i].id,
        m.username == st.users[i].username,
        m.warns >= 0,
    ensures
        (RepoState { users: st.users.update(i, m), ..st }).log(subject, t, d, now).wf(),
{
    let post = RepoState { users: st.users.update(i, m), ..st }.log(subject, t, d, now);
    lemma_has_user_mono(st, post);
    assert forall|k: int|
        0 <= k < post.commands.len() implies post.has_user(
        (#[trigger] post.commands[k]).creator_id,
    ) by {
        assert(st.has_user(st.commands[k].creator_id));
    }
    assert forall|k: int|
        0 <= k < post.actions.len() implies post.has_user(
        (#[trigger] post.actions[k]).user_id,
    ) by {
        if k < st.actions.len() {
            assert(st.has_user(st.actions[k].user_id));
        }
    }
}

/// A role change on an existing account followed by one audit entry on
/// an existing account preserves well-formedness.
pub proof fn lemma_role_log_wf(
    st: RepoState,
    i: int,
    role: Role,
    subject: i64,
    t: actions::Type,
    d: actions::Description,
    now: i64,
)
    requires
        st.wf(),
        0 <= i < st.users.len(),
        st.can_log(1),
        st.has_user(subject),
    ensures
        st.with_role(i, role).log(subject, t, d, now).wf(),
{
    let post = st.with_role(i, role).log(subject, t, d, now);
    lemma_has_user_mono(st, post);
    assert forall|k: int|
        0 <= k < post.commands.len() implies post.has_user(
        (#[trigger] post.commands[k]).creator_id,
    ) by {
        assert(st.has_user(st.commands[k].creator_id));
    }
    assert forall|k: int|
        0 <= k < post.actions.len() implies post.has_user(
        (#[trigger] post.actions[k]).user_id,
    ) by {
        if k < st.actions.len() {
            assert(st.has_user(st.actions[k].user_id));
        }
    }
}

/// Replacing one command with a model that keeps its name and creator
/// and a non-negative use count, followed by one audit entry on an
/// existing account, preserves well-formedness.
pub proof fn lemma_update_command_log_wf(
    st: RepoState,
    c: int,
    m: commands::Model,
    subject: i64,
    t: actions::Type,
    d: actions::Description,
    now: i64,
)
    requires
        st.wf(),
        0 <= c < st.commands.len(),
        st.can_log(1),
        st.has_user(subject),
        m.name == st.commands[c].name,
        m.creator_id == st.commands[c].creator_id,
        m.times_used >= 0,
    ensures
        (RepoState { commands: st.commands.update(c, m), ..st }).log(subject, t, d, now).wf(),
{
    let post = RepoState { commands: st.commands.update(c, m), ..st }.log(subject, t, d, now);
    lemma_has_user_mono(st, post);
    assert forall|k: int|
        0 <= k < post.commands.len() implies post.has_user(
        (#[trigger] post.commands[k]).creator_id,
    ) by {
        assert(st.has_user(st.commands[k].creator_id));
    }
    assert forall|k: int|
        0 <= k < post.actions.len() implies post.has_user(
        (#[trigger] post.actions[k]).user_id,
    ) by {
        if k < st.actions.len() {
            assert(st.has_user(st.actions[k].user_id));
        }
    }
}

/// Appending a command under a fresh, non-empty name by an existing
/// creator, followed by one audit entry on an existing account,
/// preserves well-formedness.
pub proof fn lemma_create_command_log_wf(
    st: RepoState,
    m: commands::Model,
    subject: i64,
    t: actions::Type,
    d: actions::Description,
    now: i64,
)
    requires
        st.wf(),
        st.can_log(1),
        st.has_user(subject),
        st.has_user(m.creator_id),
        !st.has_command(m.name@),
        m.name@.len() > 0,
        m.times_used >= 0,
    ensures
        (RepoState { commands: st.commands.push(m), ..st }).log(subject, t, d, now).wf(),
{
    let post = RepoState { commands: st.commands.push(m), ..st }.log(subject, t, d, now);
    lemma_has_user_mono(st, post);
    assert forall|k: int, l: int|
        0 <= k < l < post.commands.len() implies (#[trigger] post.commands[k]).name@ != (
        #[trigger] post.commands[l]).name@ by {
        if l < st.commands.len() {
            assert(st.commands[k].name@ != st.commands[l].name@);
        } else {
            assert(post.commands[l] == m);
            assert(!(st.commands[k].name@ == m.name@));
        }
    }
    assert forall|k: int|
        0 <= k < post.commands.len() implies post.has_user(
        (#[trigger] post.commands[k]).creator_id,
    ) by {
        if k < st.commands.len() {
            assert(st.has_user(st.commands[k].creator_id));
        }
    }
    assert forall|k: int|
        0 <= k < post.actions.len() implies post.has_user(
        (#[trigger] post.actions[k]).user_id,
    ) by {
        if k < st.actions.len() {
            assert(st.has_user(st.actions[k].user_id));
        }
    }
}

/// Removing one command, followed by one audit entry on an existing
/// account, preserves well-formedness.
pub proof fn lemma_delete_command_log_wf(
    st: RepoState,
    c: int,
    subject: i64,
    t: actions::Type,
    d: actions::Description,
    now: i64,
)
    requires
        st.wf(),
        0 <= c < st.commands.len(),
        st.can_log(1),
        st.has_user(subject),
    ensures
        (RepoState { commands: st.commands.remove(c), ..st }).log(subject, t, d, now).wf(),
{
    let post = RepoState { commands: st.commands.remove(c), ..st }.log(subject, t, d, now);
    lemma_has_user_mono(st, post);
    assert forall|k: int, l: int|
        0 <= k < l < post.commands.len() implies (#[trigger] post.commands[k]).name@ != (
        #[trigger] post.commands[l]).name@ by {
        let k0 = if k < c { k } else { k + 1 };
        let l0 = if l < c { l } else { l + 1 };
        assert(post.commands[k] == st.commands[k0]);
        assert(post.commands[l] == st.commands[l0]);
        assert(st.commands[k0].name@ != st.commands[l0].name@);
    }
    assert forall|k: int|
        0 <= k < post.commands.len() implies (#[trigger] post.commands[k]).name@.len() > 0
            && post.commands[k].times_used >= 0 && post.has_user(post.commands[k].creator_id) by {
        let k0 = if k < c { k } else { k + 1 };
        assert(post.commands[k] == st.commands[k0]);
        assert(st.has_user(st.commands[k0].creator_id));
    }
    assert forall|k: int|
        0 <= k < post.actions.len() implies post.has_user(
        (#[trigger] post.actions[k]).user_id,
    ) by {
        if k < st.actions.len() {
            assert(st.has_user(st.actions[k].user_id));
        }
    }
}

/// Registration preserves well-formedness.
pub proof fn lemma_new_user_wf(
    st: RepoState,
    id: i64,
    role: Role,
    username: Option<String>,
    nickname: String,
    now: i64,
)
    requires
        st.wf(),
    ensures
        st.spec_new_user(id, role, username, nickname, now).0.wf(),
{
    let post = st.spec_new_user(id, role, username, nickname, now).0;
    if st.handle_taken_by_other(id, username) {
    } else if st.has_user(id) {
        let i = st.user_idx(id);
        assert(0 <= i < st.users.len() && st.users[i].id == id);
        lemma_has_user_mono(st, post);
    } else if !st.can_log(1) {
    } else {
        lemma_has_user_mono(st, post);
        assert(post.users[st.users.len() as int].id == id);
        assert(post.has_user(id));
    }
}

/// In a well-formed state the account at index `i` is the one `user_idx`
/// picks for its id.
pub proof fn lemma_user_idx_of(st: RepoState, i: int)
    requires
        st.wf(),
        0 <= i < st.users.len(),
    ensures
        st.has_user(st.users[i].id),
        st.user_idx(st.users[i].id) == i,
        st.user_of(st.users[i].id) == st.users[i],
{
    let id = st.users[i].id;
    assert(st.has_user(id));
    let j = st.user_idx(id);
    if i < j {
        assert(st.users[i].id != st.users[j].id);
    } else if j < i {
        assert(st.users[j].id != st.users[i].id);
    }
}

/// In a well-formed state the account at index `i` is the one
/// `handle_idx` picks for its handle.
pub proof fn lemma_handle_idx_of(st: RepoState, i: int)
    requires
        st.wf(),
        0 <= i < st.users.len(),
        st.users[i].username is Some,
    ensures
        st.has_handle(st.users[i].username->0@),
        st.handle_idx(st.users[i].username->0@) == i,
{
    let h = st.users[i].username->0@;
    assert(st.has_handle(h));
    let j = st.handle_idx(h);
    if i < j {
        assert(st.users[i].username->0@ != st.users[j].username->0@);
    } else if j < i {
        assert(st.users[j].username->0@ != st.users[i].username->0@);
    }
}

/// In a well-formed state the command at index `i` is the one
/// `command_idx` picks for its name.
pub proof fn lemma_command_idx_of(st: RepoState, i: int)
    requires
        st.wf(),
        0 <= i < st.commands.len(),
    ensures
        st.has_command(st.commands[i].name@),
        st.command_idx(st.commands[i].name@) == i,
        st.command_of(st.commands[i].name@) == st.commands[i],
{
    let n = st.commands[i].name@;
    assert(st.has_command(n));
    let j = st.command_idx(n);
    if i < j {
        assert(st.commands[i].name@ != st.commands[j].name@);
    } else if j < i {
        assert(st.commands[j].name@ != st.commands[i].name@);
    }
}

/// The commands created by `user`.
pub open spec fn creator_is(user: i64) -> spec_fn(commands::Model) -> bool {
    |m: commands::Model| m.creator_id == user
}

/// The audit entries whose subject is `user`.
pub open spec fn subject_is(user: i64) -> spec_fn(actions::Model) -> bool {
    |m: actions::Model| m.user_id == user
}

/// The page of `s` selected by a zero-based page index and a page size:
/// the offset window starting at `page * page_size` holding up to
/// `page_size` items, clipped to the length of `s`.
pub open spec fn page_window<T>(s: Seq<T>, page: u64, page_size: u64) -> Seq<T> {
    let off = page as int * page_size as int;
    let lo = if off <= s.len() {
        off
    } else {
        s.len() as int
    };
    let hi = if off + page_size as int <= s.len() {
        off + page_size as int
    } else {
        s.len() as int
    };
    s.subrange(lo, hi)
}

/// Filtering an empty sequence gives an empty sequence.
pub proof fn lemma_filter_empty<T>(pred: spec_fn(T) -> bool)
    ensures
        Seq::<T>::empty().filter(pred) == Seq::<T>::empty(),
{
    reveal(Seq::filter);
}

/// Filtering commutes with appending one element.
pub proof fn lemma_filter_push<T>(s: Seq<T>, pred: spec_fn(T) -> bool, x: T)
    ensures
        s.push(x).filter(pred) == (if pred(x) {
            s.filter(pred).push(x)
        } else {
            s.filter(pred)
        }),
{
    reveal(Seq::filter);
    assert(s.push(x).drop_last() =~= s);
    assert(s.push(x).last() == x);
}

/// Keeps only the page selected by `page` and `page_size`.
fn window_of<T>(all: Vec<T>, page: u64, page_size: u64) -> (r: Vec<T>)
    ensures
        r@ == page_window(all@, page, page_size),
{
    let ghost win = page_window(all@, page, page_size);
    let mut v = all;
    let n = v.len();
    match page.checked_mul(page_size) {
        None => {
            proof {
                assert(win =~= Seq::<T>::empty());
            }
            Vec::new()
        },
        Some(off) => {
            if off >= n as u64 {
                proof {
                    assert(win =~= Seq::<T>::empty());
                }
                Vec::new()
            } else {
                let start = off as usize;
                let mut tail = v.split_off(start);
                if (tail.len() as u64) > page_size {
                    tail.truncate(page_size as usize);
                }
                proof {
                    assert(tail@ =~= win);
                }
                tail
            }
        },
    }
}

/// Options for building a [`Repository`]: the warn threshold, or `None`
/// for the default.
pub struct RepositoryOptions {
    pub max_warns: Option<i64>,
}

impl Default for RepositoryOptions {
    fn default() -> (d: Self)
        ensures
            d.max_warns is None,
    {
        RepositoryOptions { max_warns: None }
    }
}

/// The account registry together with the moderation and command
/// service: three in-memory tables (accounts, commands, audit entries)
/// and the warn threshold.
///
/// Every state-changing operation loads the acting account, evaluates an
/// authorization predicate, and either performs exactly one mutation
/// plus an audit append (two for the warn auto-block cascade) or leaves
/// the state untouched and returns a typed failure.
pub struct Repository {
    users: Vec<users::Model>,
    commands: Vec<commands::Model>,
    actions: Vec<actions::Model>,
    max_warns: i64,
}

impl View for Repository {
    type V = RepoState;

    closed spec fn view(&self) -> RepoState {
        RepoState {
            users: self.users@,
            commands: self.commands@,
            actions: self.actions@,
            max_warns: self.max_warns as int,
        }
    }
}

impl Repository {
    pub fn new(options: RepositoryOptions) -> (r: Self)
        ensures
            r@.wf(),
            r@.users == Seq::<users::Model>::empty(),
            r@.commands == Seq::<commands::Model>::empty(),
            r@.actions == Seq::<actions::Model>::empty(),
            r@.max_warns == (match options.max_warns {
                Some(m) => m as int,
                None => DEFAULT_MAX_WARNS as int,
            }),
    {
        Repository {
            users: Vec::new(),
            commands: Vec::new(),
            actions: Vec::new(),
            max_warns: match options.max_warns {
                Some(m) => m,
                None => DEFAULT_MAX_WARNS,
            },
        }
    }

    /// The index of the account with the id, if any.
    fn find_user(&self, id: i64) -> (r: Option<usize>)
        ensures
            match r {
                Some(i) => i < self@.users.len() && self@.users[i as int].id == id,
                None => !self@.has_user(id),
            },
    {
        let mut i: usize = 0;
        while i < self.users.len()
            invariant
                i <= self@.users.len(),
                forall|j: int| 0 <= j < i ==> (#[trigger] self@.users[j]).id != id,
            decreases self@.users.len() - i,
        {
            if self.users[i].id == id {
                return Some(i);
            }
            i += 1;
        }
        None
    }

    /// The index of the command with the name, if any.
    fn find_command(&self, name: &String) -> (r: Option<usize>)
        ensures
            match r {
                Some(i) => i < self@.commands.len() && self@.commands[i as int].name@ == name@,
                None => !self@.has_command(name@),
            },
    {
        let mut i: usize = 0;
        while i < self.commands.len()
            invariant
                i <= self@.commands.len(),
                forall|j: int| 0 <= j < i ==> (#[trigger] self@.commands[j]).name@ != name@,
            decreases self@.commands.len() - i,
        {
            if self.commands[i].name == *name {
                return Some(i);
            }
            i += 1;
        }
        None
    }

    /// Whether an account other than `id` already holds the handle.
    #[verifier::loop_isolation(false)]
    fn handle_conflict(&self, id: i64, username: &Option<String>) -> (b: bool)
        ensures
            b == self@.handle_taken_by_other(id, *username),
    {
        match username {
            None => false,
            Some(u) => {
                let mut i: usize = 0;
                while i < self.users.len()
                    invariant
                        i <= self@.users.len(),
                        forall|j: int|
                            0 <= j < i ==> !((#[trigger] self@.users[j]).id != id
                                && self@.users[j].username is Some && self@.users[j].username->0@
                                == u@),
                    decreases self@.users.len() - i,
                {
                    if self.users[i].id != id {
                        match &self.users[i].username {
                            Some(w) => {
                                if *w == *u {
                                    proof {
                                        let k = i as int;
                                        assert(0 <= k < self@.users.len() && (
                                        #[trigger] self@.users[k]).id != id
                                            && self@.users[k].username is Some
                                            && self@.users[k].username->0@ == (*username)->0@);
                                    }
                                    return true;
                                }
                            },
                            None => {},
                        }
                    }
                    i += 1;
                }
                false
            },
        }
    }

    /// Room check for appending `more` audit entries; fails the caller
    /// with `InternalError` when the log is at its machine capacity.
    fn log_has_room(&self, more: u64) -> (b: bool)
        requires
            more <= 2,
        ensures
            b == self@.can_log(more as int),
    {
        (self.actions.len() as u64) <= (i64::MAX as u64) - more
    }

    /// Registers or refreshes the account `id` (see
    /// [`RepoState::spec_new_user`]). Repeating a call with the same
    /// display fields changes nothing further and appends no second
    /// `CreateUser` entry.
    pub fn new_user(
        &mut self,
        id: i64,
        role: Role,
        username: Option<String>,
        nickname: String,
        now: i64,
    ) -> (r: Result<(), RepoError>)
        requires
            old(self)@.wf(),
        ensures
            final(self)@.wf(),
            ({
                let (st, res) = old(self)@.spec_new_user(id, role, username, nickname, now);
                final(self)@ == st && r == res
            }),
    {
        proof {
            lemma_new_user_wf(old(self)@, id, role, username, nickname, now);
        }
        let ghost goal = old(self)@.spec_new_user(id, role, username, nickname, now).0;
        if self.handle_conflict(id, &username) {
            return Err(RepoError::AlreadyExists);
        }
        match self.find_user(id) {
            Some(i) => {
                proof {
                    lemma_user_idx_of(self@, i as int);
                }
                let prev = self.users[i].clone();
                self.users[i] = users::Model { username, nickname, ..prev };
                proof {
                    assert(self@.users =~= goal.users);
                    assert(self@ =~= goal);
                }
                Ok(())
            },
            None => {
                if !self.log_has_room(1) {
                    return Err(RepoError::InternalError);
                }
                let aid = self.actions.len() as i64 + 1;
                self.users.push(
                    users::Model { id, role, username, nickname, warns: 0, created_at: now },
                );
                self.actions.push(
                    actions::Model {
                        id: aid,
                        user_id: id,
                        action_type: actions::Type::CreateUser,
                        description: actions::Description {
                            by: None,
                            warns: None,
                            command: None,
                            action: None,
                        },
                        created_at: now,
                    },
                );
                proof {
                    assert(self@.users =~= goal.users);
                    assert(self@.actions =~= goal.actions);
                    assert(self@ =~= goal);
                }
                Ok(())
            },
        }
    }

    /// Appends one audit entry with the next id.
    fn push_audit(&mut self, user_id: i64, t: actions::Type, d: actions::Description, now: i64)
        requires
            old(self)@.can_log(1),
        ensures
            final(self)@ == old(self)@.log(user_id, t, d, now),
    {
        let aid = self.actions.len() as i64 + 1;
        self.actions.push(
            actions::Model { id: aid, user_id, action_type: t, description: d, created_at: now },
        );
        proof {
            assert(self@.actions =~= old(self)@.log(user_id, t, d, now).actions);
            assert(self@ =~= old(self)@.log(user_id, t, d, now));
        }
    }

    /// Renames the account `id` (see [`RepoState::spec_change_nickname`]).
    pub fn change_nickname(&mut self, by: i64, id: i64, nickname: String) -> (r: Result<
        (),
        RepoError,
    >)
        requires
            old(self)@.wf(),
        ensures
            final(self)@.wf(),
            ({
                let (st, res) = old(self)@.spec_change_nickname(by, id, nickname);
                final(self)@ == st && r == res
            }),
    {
        let ghost goal = old(self)@.spec_change_nickname(by, id, nickname).0;
        let actor = match self.find_user(by) {
            None => return Err(RepoError::NotFound),
            Some(a) => a,
        };
        proof {
            lemma_user_idx_of(self@, actor as int);
        }
        if by != id && !self.users[actor].role.at_least(Role::Moderator) {
            return Err(RepoError::Forbidden);
        }
        match self.find_user(id) {
            None => Err(RepoError::NotFound),
            Some(i) => {
                proof {
                    lemma_user_idx_of(self@, i as int);
                }
                let prev = self.users[i].clone();
                self.users[i] = users::Model { nickname, ..prev };
                proof {
                    lemma_has_user_mono(old(self)@, self@);
                    assert(self@.users =~= goal.users);
                    assert(self@ =~= goal);
                    assert forall|k: int|
                        0 <= k < self@.commands.len() implies self@.has_user(
                        (#[trigger] self@.commands[k]).creator_id,
                    ) by {
                        assert(old(self)@.has_user(old(self)@.commands[k].creator_id));
                    }
                    assert forall|k: int|
                        0 <= k < self@.actions.len() implies self@.has_user(
                        (#[trigger] self@.actions[k]).user_id,
                    ) by {
                        assert(old(self)@.has_user(old(self)@.actions[k].user_id));
                    }
                }
                Ok(())
            },
        }
    }

    /// Blocks a `User`-role target (see [`RepoState::spec_block_user`]).
    pub fn block_user(&mut self, by: i64, user: i64, now: i64) -> (r: Result<(), RepoError>)
        requires
            old(self)@.wf(),
        ensures
            final(self)@.wf(),
            ({
                let (st, res) = old(self)@.spec_block_user(by, user, now);
                final(self)@ == st && r == res
            }),
    {
        let ghost goal = old(self)@.spec_block_user(by, user, now).0;
        let actor = match self.find_user(by) {
            None => return Err(RepoError::NotFound),
            Some(a) => a,
        };
        let target = match self.find_user(user) {
            None => return Err(RepoError::NotFound),
            Some(t) => t,
        };
        proof {
            lemma_user_idx_of(self@, actor as int);
            lemma_user_idx_of(self@, target as int);
        }
        if !self.users[actor].role.at_least(Role::Moderator) {
            return Err(RepoError::Forbidden);
        }
        if self.users[target].role != Role::User {
            return Err(RepoError::InvalidRole);
        }
        if !self.log_has_room(1) {
            return Err(RepoError::InternalError);
        }
        proof {
            lemma_role_log_wf(
                self@,
                target as int,
                Role::Blocked,
                user,
                actions::Type::BlockUser,
                actions::Description::spec_by(by),
                now,
            );
        }
        let prev = self.users[target].clone();
        self.users[target] = users::Model { role: Role::Blocked, ..prev };
        proof {
            assert(self@.users =~= old(self)@.with_role(old(self)@.user_idx(user), Role::Blocked).users);
            assert(self@ =~= old(self)@.with_role(old(self)@.user_idx(user), Role::Blocked));
        }
        self.push_audit(
            user,
            actions::Type::BlockUser,
            actions::Description { by: Some(by), warns: None, command: None, action: None },
            now,
        );
        proof {
            assert(self@ =~= goal);
        }
        Ok(())
    }

    /// Unblocks a `Blocked` target (see [`RepoState::spec_unblock_user`]).
    pub fn unblock_user(&mut self, by: i64, user: i64, now: i64) -> (r: Result<(), RepoError>)
        requires
            old(self)@.wf(),
        ensures
            final(self)@.wf(),
            ({
                let (st, res) = old(self)@.spec_unblock_user(by, user, now);
                final(self)@ == st && r == res
            }),
    {
        let ghost goal = old(self)@.spec_unblock_user(by, user, now).0;
        let actor = match self.find_user(by) {
            None => return Err(RepoError::NotFound),
            Some(a) => a,
        };
        let target = match self.find_user(user) {
            None => return Err(RepoError::NotFound),
            Some(t) => t,
        };
        proof {
            lemma_user_idx_of(self@, actor as int);
            lemma_user_idx_of(self@, target as int);
        }
        if !self.users[actor].role.at_least(Role::Moderator) {
            return Err(RepoError::Forbidden);
        }
        if self.users[target].role != Role::Blocked {
            return Err(RepoError::InvalidRole);
        }
        if !self.log_has_room(1) {
            return Err(RepoError::InternalError);
        }
        proof {
            lemma_role_log_wf(
                self@,
                target as int,
                Role::User,
                user,
                actions::Type::UnblockUser,
                actions::Description::spec_by(by),
                now,
            );
        }
        let prev = self.users[target].clone();
        self.users[target] = users::Model { role: Role::User, ..prev };
        proof {
            assert(self@.users =~= old(self)@.with_role(old(self)@.user_idx(user), Role::User).users);
            assert(self@ =~= old(self)@.with_role(old(self)@.user_idx(user), Role::User));
        }
        self.push_audit(
            user,
            actions::Type::UnblockUser,
            actions::Description { by: Some(by), warns: None, command: None, action: None },
            now,
        );
        proof {
            assert(self@ =~= goal);
        }
        Ok(())
    }

    /// Promotes a `User`-role target to `Moderator` (see
    /// [`RepoState::spec_promote_user`]).
    pub fn promote_user(&mut self, by: i64, user: i64, now: i64) -> (r: Result<(), RepoError>)
        requires
            old(self)@.wf(),
        ensures
            final(self)@.wf(),
            ({
                let (st, res) = old(self)@.spec_promote_user(by, user, now);
                final(self)@ == st && r == res
            }),
    {
        let ghost goal = old(self)@.spec_promote_user(by, user, now).0;
        let actor = match self.find_user(by) {
            None => return Err(RepoError::NotFound),
            Some(a) => a,
        };
        let target = match self.find_user(user) {
            None => return Err(RepoError::NotFound),
            Some(t) => t,
        };
        proof {
            lemma_user_idx_of(self@, actor as int);
            lemma_user_idx_of(self@, target as int);
        }
        if self.users[actor].role != Role::Creator {
            return Err(RepoError::Forbidden);
        }
        if self.users[target].role != Role::User {
            return Err(RepoError::InvalidRole);
        }
        if !self.log_has_room(1) {
            return Err(RepoError::InternalError);
        }
        proof {
            lemma_role_log_wf(
                self@,
                target as int,
                Role::Moderator,
                user,
                actions::Type::PromoteUser,
                actions::Description::spec_by(by),
                now,
            );
        }
        let prev = self.users[target].clone();
        self.users[target] = users::Model { role: Role::Moderator, ..prev };
        proof {
            assert(self@.users =~= old(self)@.with_role(old(self)@.user_idx(user), Role::Moderator).users);
            assert(self@ =~= old(self)@.with_role(old(self)@.user_idx(user), Role::Moderator));
        }
        self.push_audit(
            user,
            actions::Type::PromoteUser,
            actions::Description { by: Some(by), warns: None, command: None, action: None },
            now,
        );
        proof {
            assert(self@ =~= goal);
        }
        Ok(())
    }

    /// Demotes a `Moderator`-role target to `User` (see
    /// [`RepoState::spec_demote_user`]).
    pub fn demote_user(&mut self, by: i64, user: i64, now: i64) -> (r: Result<(), RepoError>)
        requires
            old(self)@.wf(),
        ensures
            final(self)@.wf(),
            ({
                let (st, res) = old(self)@.spec_demote_user(by, user, now);
                final(self)@ == st && r == res
            }),
    {
        let ghost goal = old(self)@.spec_demote_user(by, user, now).0;
        let actor = match self.find_user(by) {
            None => return Err(RepoError::NotFound),
            Some(a) => a,
        };
        let target = match self.find_user(user) {
            None => return Err(RepoError::NotFound),
            Some(t) => t,
        };
        proof {
            lemma_user_idx_of(self@, actor as int);
            lemma_user_idx_of(self@, target as int);
        }
        if self.users[actor].role != Role::Creator {
            return Err(RepoError::Forbidden);
        }
        if self.users[target].role != Role::Moderator {
            return Err(RepoError::InvalidRole);
        }
        if !self.log_has_room(1) {
            return Err(RepoError::InternalError);
        }
        proof {
            lemma_role_log_wf(
                self@,
                target as int,
                Role::User,
                user,
                actions::Type::DemoteUser,
                actions::Description::spec_by(by),
                now,
            );
        }
        let prev = self.users[target].clone();
        self.users[target] = users::Model { role: Role::User, ..prev };
        proof {
            assert(self@.users =~= old(self)@.with_role(old(self)@.user_idx(user), Role::User).users);
            assert(self@ =~= old(self)@.with_role(old(self)@.user_idx(user), Role::User));
        }
        self.push_audit(
            user,
            actions::Type::DemoteUser,
            actions::Description { by: Some(by), warns: None, command: None, action: None },
            now,
        );
        proof {
            assert(self@ =~= goal);
        }
        Ok(())
    }

    /// Warns the target; `Ok(true)` says the call also auto-blocked it
    /// (see [`RepoState::spec_warn`]).
    pub fn warn(&mut self, by: i64, user: i64, now: i64) -> (r: Result<bool, RepoError>)
        requires
            old(self)@.wf(),
        ensures
            final(self)@.wf(),
            ({
                let (st, res) = old(self)@.spec_warn(by, user, now);
                final(self)@ == st && r == res
            }),
    {
        let ghost goal = old(self)@.spec_warn(by, user, now).0;
        let actor = match self.find_user(by) {
            None => return Err(RepoError::NotFound),
            Some(a) => a,
        };
        let target = match self.find_user(user) {
            None => return Err(RepoError::NotFound),
            Some(t) => t,
        };
        proof {
            lemma_user_idx_of(self@, actor as int);
            lemma_user_idx_of(self@, target as int);
        }
        if !self.users[actor].role.at_least(Role::Moderator) {
            return Err(RepoError::Forbidden);
        }
        if self.users[target].role.at_least(Role::Moderator) {
            return Err(RepoError::InvalidRole);
        }
        if self.users[target].warns == i64::MAX {
            return Err(RepoError::InternalError);
        }
        let w = self.users[target].warns + 1;
        let cascade = w >= self.max_warns && self.users[target].role == Role::User;
        if cascade {
            if !self.log_has_room(2) {
                return Err(RepoError::InternalError);
            }
        } else {
            if !self.log_has_room(1) {
                return Err(RepoError::InternalError);
            }
        }
        let ghost st0 = old(self)@;
        let ghost i = st0.user_idx(user);
        let ghost warned = RepoState {
            users: st0.users.update(i, users::Model { warns: w, ..st0.users[i] }),
            ..st0
        }.log(user, actions::Type::WarnUser, actions::Description::spec_warns(by, w), now);
        proof {
            lemma_update_log_wf(
                st0,
                i,
                users::Model { warns: w, ..st0.users[i] },
                user,
                actions::Type::WarnUser,
                actions::Description::spec_warns(by, w),
                now,
            );
            if cascade {
                lemma_has_user_mono(st0, warned);
                lemma_role_log_wf(
                    warned,
                    i,
                    Role::Blocked,
                    user,
                    actions::Type::BlockUser,
                    actions::Description::spec_by(by),
                    now,
                );
            }
        }
        let prev = self.users[target].clone();
        self.users[target] = users::Model { warns: w, ..prev };
        self.push_audit(
            user,
            actions::Type::WarnUser,
            actions::Description { by: Some(by), warns: Some(w), command: None, action: None },
            now,
        );
        proof {
            assert(self@.users =~= warned.users);
            assert(self@.actions =~= warned.actions);
            assert(self@ =~= warned);
        }
        if cascade {
            let prev2 = self.users[target].clone();
            self.users[target] = users::Model { role: Role::Blocked, ..prev2 };
            proof {
                assert(self@.users =~= warned.with_role(i, Role::Blocked).users);
                assert(self@ =~= warned.with_role(i, Role::Blocked));
            }
            self.push_audit(
                user,
                actions::Type::BlockUser,
                actions::Description { by: Some(by), warns: None, command: None, action: None },
                now,
            );
            proof {
                assert(self@ =~= goal);
            }
            Ok(true)
        } else {
            proof {
                assert(self@ =~= goal);
            }
            Ok(false)
        }
    }

    /// Removes one warning from the target (see
    /// [`RepoState::spec_un_warn`]); at count zero it fails with
    /// `NotAllowed` and changes nothing.
    pub fn un_warn(&mut self, by: i64, user: i64, now: i64) -> (r: Result<(), RepoError>)
        requires
            old(self)@.wf(),
        ensures
            final(self)@.wf(),
            ({
                let (st, res) = old(self)@.spec_un_warn(by, user, now);
                final(self)@ == st && r == res
            }),
    {
        let ghost goal = old(self)@.spec_un_warn(by, user, now).0;
        let actor = match self.find_user(by) {
            None => return Err(RepoError::NotFound),
            Some(a) => a,
        };
        let target = match self.find_user(user) {
            None => return Err(RepoError::NotFound),
            Some(t) => t,
        };
        proof {
            lemma_user_idx_of(self@, actor as int);
            lemma_user_idx_of(self@, target as int);
        }
        if !self.users[actor].role.at_least(Role::Moderator) {
            return Err(RepoError::Forbidden);
        }
        if self.users[target].role.at_least(Role::Moderator) {
            return Err(RepoError::InvalidRole);
        }
        if self.users[target].warns <= 0 {
            return Err(RepoError::NotAllowed);
        }
        if !self.log_has_room(1) {
            return Err(RepoError::InternalError);
        }
        let w = self.users[target].warns - 1;
        proof {
            lemma_update_log_wf(
                old(self)@,
                old(self)@.user_idx(user),
                users::Model { warns: w, ..old(self)@.users[old(self)@.user_idx(user)] },
                user,
                actions::Type::UnWarnUser,
                actions::Description::spec_warns(by, w),
                now,
            );
        }
        let prev = self.users[target].clone();
        self.users[target] = users::Model { warns: w, ..prev };
        self.push_audit(
            user,
            actions::Type::UnWarnUser,
            actions::Description { by: Some(by), warns: Some(w), command: None, action: None },
            now,
        );
        proof {
            assert(self@.users =~= goal.users);
            assert(self@.actions =~= goal.actions);
            assert(self@ =~= goal);
        }
        Ok(())
    }

    /// Creates a command under a fresh name (see
    /// [`RepoState::spec_create_command`]).
    pub fn create_command(&mut self, name: String, action: String, creator: i64, now: i64) -> (r:
        Result<(), RepoError>)
        requires
            old(self)@.wf(),
            name@.len() > 0,
        ensures
            final(self)@.wf(),
            ({
                let (st, res) = old(self)@.spec_create_command(name, action, creator, now);
                final(self)@ == st && r == res
            }),
    {
        let ghost goal = old(self)@.spec_create_command(name, action, creator, now).0;
        let actor = match self.find_user(creator) {
            None => return Err(RepoError::NotFound),
            Some(a) => a,
        };
        proof {
            lemma_user_idx_of(self@, actor as int);
        }
        if self.users[actor].role == Role::Blocked {
            return Err(RepoError::Forbidden);
        }
        match self.find_command(&name) {
            Some(c) => {
                proof {
                    lemma_command_idx_of(self@, c as int);
                }
                return Err(RepoError::AlreadyExists);
            },
            None => {},
        }
        if !self.log_has_room(1) {
            return Err(RepoError::InternalError);
        }
        let m = commands::Model {
            name: name.clone(),
            action: action.clone(),
            creator_id: creator,
            times_used: 0,
            created_at: now,
        };
        proof {
            lemma_create_command_log_wf(
                self@,
                m,
                creator,
                actions::Type::CreateCommand,
                actions::Description {
                    by: None,
                    warns: None,
                    command: Some(name),
                    action: Some(action),
                },
                now,
            );
        }
        self.commands.push(m);
        proof {
            assert(self@.commands =~= goal.commands);
        }
        self.push_audit(
            creator,
            actions::Type::CreateCommand,
            actions::Description { by: None, warns: None, command: Some(name), action: Some(action) },
            now,
        );
        proof {
            assert(self@ =~= goal);
        }
        Ok(())
    }

    /// Replaces the action text of a command (see
    /// [`RepoState::spec_update_command`]).
    pub fn update_command(&mut self, id: String, by: i64, action: String, now: i64) -> (r: Result<
        (),
        RepoError,
    >)
        requires
            old(self)@.wf(),
        ensures
            final(self)@.wf(),
            ({
                let (st, res) = old(self)@.spec_update_command(id, by, action, now);
                final(self)@ == st && r == res
            }),
    {
        let ghost goal = old(self)@.spec_update_command(id, by, action, now).0;
        let c = match self.find_command(&id) {
            None => return Err(RepoError::CommandNotFound),
            Some(c) => c,
        };
        let actor = match self.find_user(by) {
            None => return Err(RepoError::NotFound),
            Some(a) => a,
        };
        proof {
            lemma_command_idx_of(self@, c as int);
            lemma_user_idx_of(self@, actor as int);
        }
        let allowed = (by == self.commands[c].creator_id || self.users[actor].role.at_least(
            Role::Moderator,
        )) && self.users[actor].role != Role::Blocked;
        if !allowed {
            return Err(RepoError::Forbidden);
        }
        if !self.log_has_room(1) {
            return Err(RepoError::InternalError);
        }
        let prev = self.commands[c].clone();
        let m = commands::Model { action: action.clone(), ..prev };
        proof {
            lemma_update_command_log_wf(
                self@,
                c as int,
                m,
                by,
                actions::Type::EditCommand,
                actions::Description { by: None, warns: None, command: Some(id), action: Some(action) },
                now,
            );
        }
        self.commands[c] = m;
        proof {
            assert(self@.commands =~= goal.commands);
        }
        self.push_audit(
            by,
            actions::Type::EditCommand,
            actions::Description { by: None, warns: None, command: Some(id), action: Some(action) },
            now,
        );
        proof {
            assert(self@ =~= goal);
        }
        Ok(())
    }

    /// Removes a command (see [`RepoState::spec_delete_command`]).
    pub fn delete_command(&mut self, id: String, by: i64, now: i64) -> (r: Result<(), RepoError>)
        requires
            old(self)@.wf(),
        ensures
            final(self)@.wf(),
            ({
                let (st, res) = old(self)@.spec_delete_command(id, by, now);
                final(self)@ == st && r == res
            }),
    {
        let ghost goal = old(self)@.spec_delete_command(id, by, now).0;
        let c = match self.find_command(&id) {
            None => return Err(RepoError::CommandNotFound),
            Some(c) => c,
        };
        let actor = match self.find_user(by) {
            None => return Err(RepoError::NotFound),
            Some(a) => a,
        };
        proof {
            lemma_command_idx_of(self@, c as int);
            lemma_user_idx_of(self@, actor as int);
        }
        let allowed = by == self.commands[c].creator_id || self.users[actor].role.at_least(
            Role::Moderator,
        );
        if !allowed {
            return Err(RepoError::Forbidden);
        }
        if !self.log_has_room(1) {
            return Err(RepoError::InternalError);
        }
        proof {
            lemma_delete_command_log_wf(
                self@,
                c as int,
                by,
                actions::Type::DeleteCommand,
                actions::Description { by: None, warns: None, command: Some(id), action: None },
                now,
            );
        }
        self.commands.remove(c);
        proof {
            assert(self@.commands =~= goal.commands);
        }
        self.push_audit(
            by,
            actions::Type::DeleteCommand,
            actions::Description { by: None, warns: None, command: Some(id), action: None },
            now,
        );
        proof {
            assert(self@ =~= goal);
        }
        Ok(())
    }

    /// Uses a command: bumps its use count by one (see
    /// [`RepoState::spec_use_command`]).
    pub fn use_command(&mut self, id: String, by: i64, now: i64) -> (r: Result<(), RepoError>)
        requires
            old(self)@.wf(),
        ensures
            final(self)@.wf(),
            ({
                let (st, res) = old(self)@.spec_use_command(id, by, now);
                final(self)@ == st && r == res
            }),
    {
        let ghost goal = old(self)@.spec_use_command(id, by, now).0;
        let actor = match self.find_user(by) {
            None => return Err(RepoError::NotFound),
            Some(a) => a,
        };
        proof {
            lemma_user_idx_of(self@, actor as int);
        }
        if self.users[actor].role == Role::Blocked {
            return Err(RepoError::Forbidden);
        }
        let c = match self.find_command(&id) {
            None => return Err(RepoError::CommandNotFound),
            Some(c) => c,
        };
        proof {
            lemma_command_idx_of(self@, c as int);
        }
        if self.commands[c].times_used == i64::MAX {
            return Err(RepoError::InternalError);
        }
        if !self.log_has_room(1) {
            return Err(RepoError::InternalError);
        }
        let prev = self.commands[c].clone();
        let m = commands::Model { times_used: prev.times_used + 1, ..prev };
        proof {
            lemma_update_command_log_wf(
                self@,
                c as int,
                m,
                by,
                actions::Type::UseCommand,
                actions::Description { by: None, warns: None, command: Some(id), action: None },
                now,
            );
        }
        self.commands[c] = m;
        proof {
            assert(self@.commands =~= goal.commands);
        }
        self.push_audit(
            by,
            actions::Type::UseCommand,
            actions::Description { by: None, warns: None, command: Some(id), action: None },
            now,
        );
        proof {
            assert(self@ =~= goal);
        }
        Ok(())
    }

    /// Appends an audit entry for the account `user_id` and returns its
    /// id (see [`RepoState::spec_new_action`]).
    pub fn new_action(
        &mut self,
        user_id: i64,
        action_type: actions::Type,
        description: actions::Description,
        now: i64,
    ) -> (r: Result<i64, RepoError>)
        requires
            old(self)@.wf(),
        ensures
            final(self)@.wf(),
            ({
                let (st, res) = old(self)@.spec_new_action(user_id, action_type, description, now);
                final(self)@ == st && r == res
            }),
    {
        let ghost goal = old(self)@.spec_new_action(user_id, action_type, description, now).0;
        let subject = match self.find_user(user_id) {
            None => return Err(RepoError::NotFound),
            Some(s) => s,
        };
        proof {
            lemma_user_idx_of(self@, subject as int);
        }
        if !self.log_has_room(1) {
            return Err(RepoError::InternalError);
        }
        proof {
            lemma_update_log_wf(
                self@,
                subject as int,
                self@.users[subject as int],
                user_id,
                action_type,
                description,
                now,
            );
            assert(self@.users.update(subject as int, self@.users[subject as int]) =~= self@.users);
        }
        let aid = self.actions.len() as i64 + 1;
        self.push_audit(user_id, action_type, description, now);
        proof {
            assert(self@ =~= goal);
        }
        Ok(aid)
    }

    /// The account with the id.
    pub fn get_user(&self, user: i64) -> (r: Result<users::Model, RepoError>)
        requires
            self@.wf(),
        ensures
            match r {
                Ok(m) => self@.has_user(user) && m == self@.user_of(user),
                Err(e) => e == RepoError::NotFound && !self@.has_user(user),
            },
    {
        match self.find_user(user) {
            Some(i) => {
                proof {
                    lemma_user_idx_of(self@, i as int);
                }
                Ok(self.users[i].clone())
            },
            None => Err(RepoError::NotFound),
        }
    }

    /// A copy of the commands created by `user`, in creation order.
    #[verifier::loop_isolation(false)]
    fn commands_of(&self, user: i64) -> (v: Vec<commands::Model>)
        ensures
            v@ == self@.commands.filter(creator_is(user)),
    {
        let ghost pred = creator_is(user);
        let mut v: Vec<commands::Model> = Vec::new();
        proof {
            lemma_filter_empty::<commands::Model>(pred);
            assert(self@.commands.subrange(0, 0) =~= Seq::<commands::Model>::empty());
        }
        let mut i: usize = 0;
        while i < self.commands.len()
            invariant
                i <= self@.commands.len(),
                v@ == self@.commands.subrange(0, i as int).filter(pred),
            decreases self@.commands.len() - i,
        {
            proof {
                assert(self@.commands.subrange(0, i as int + 1) =~= self@.commands.subrange(
                    0,
                    i as int,
                ).push(self@.commands[i as int]));
                lemma_filter_push(
                    self@.commands.subrange(0, i as int),
                    pred,
                    self@.commands[i as int],
                );
            }
            if self.commands[i].creator_id == user {
                v.push(self.commands[i].clone());
            }
            i += 1;
        }
        proof {
            assert(self@.commands.subrange(0, self@.commands.len() as int) =~= self@.commands);
        }
        v
    }

    /// A copy of all commands, in creation order.
    #[verifier::loop_isolation(false)]
    fn all_commands(&self) -> (v: Vec<commands::Model>)
        ensures
            v@ == self@.commands,
    {
        let mut v: Vec<commands::Model> = Vec::new();
        let mut i: usize = 0;
        while i < self.commands.len()
            invariant
                i <= self@.commands.len(),
                v@ == self@.commands.subrange(0, i as int),
            decreases self@.commands.len() - i,
        {
            proof {
                assert(self@.commands.subrange(0, i as int + 1) =~= self@.commands.subrange(
                    0,
                    i as int,
                ).push(self@.commands[i as int]));
            }
            v.push(self.commands[i].clone());
            i += 1;
        }
        proof {
            assert(self@.commands.subrange(0, self@.commands.len() as int) =~= self@.commands);
        }
        v
    }

    /// A copy of the audit entries whose subject is `user`, in order of
    /// creation.
    #[verifier::loop_isolation(false)]
    fn actions_of(&self, user: i64) -> (v: Vec<actions::Model>)
        ensures
            v@ == self@.actions.filter(subject_is(user)),
    {
        let ghost pred = subject_is(user);
        let mut v: Vec<actions::Model> = Vec::new();
        proof {
            lemma_filter_empty::<actions::Model>(pred);
            assert(self@.actions.subrange(0, 0) =~= Seq::<actions::Model>::empty());
        }
        let mut i: usize = 0;
        while i < self.actions.len()
            invariant
                i <= self@.actions.len(),
                v@ == self@.actions.subrange(0, i as int).filter(pred),
            decreases self@.actions.len() - i,
        {
            proof {
                assert(self@.actions.subrange(0, i as int + 1) =~= self@.actions.subrange(
                    0,
                    i as int,
                ).push(self@.actions[i as int]));
                lemma_filter_push(
                    self@.actions.subrange(0, i as int),
                    pred,
                    self@.actions[i as int],
                );
            }
            if self.actions[i].user_id == user {
                v.push(self.actions[i].clone());
            }
            i += 1;
        }
        proof {
            assert(self@.actions.subrange(0, self@.actions.len() as int) =~= self@.actions);
        }
        v
    }

    /// A copy of the whole audit log, in order of creation.
    #[verifier::loop_isolation(false)]
    fn all_actions(&self) -> (v: Vec<actions::Model>)
        ensures
            v@ == self@.actions,
    {
        let mut v: Vec<actions::Model> = Vec::new();
        let mut i: usize = 0;
        while i < self.actions.len()
            invariant
                i <= self@.actions.len(),
                v@ == self@.actions.subrange(0, i as int),
            decreases self@.actions.len() - i,
        {
            proof {
                assert(self@.actions.subrange(0, i as int + 1) =~= self@.actions.subrange(
                    0,
                    i as int,
                ).push(self@.actions[i as int]));
            }
            v.push(self.actions[i].clone());
            i += 1;
        }
        proof {
            assert(self@.actions.subrange(0, self@.actions.len() as int) =~= self@.actions);
        }
        v
    }

    /// The command with the name.
    pub fn get_command(&self, id: String) -> (r: Result<commands::Model, RepoError>)
        requires
            self@.wf(),
        ensures
            match r {
                Ok(m) => self@.has_command(id@) && m == self@.command_of(id@),
                Err(e) => e == RepoError::CommandNotFound && !self@.has_command(id@),
            },
    {
        match self.find_command(&id) {
            Some(c) => {
                proof {
                    lemma_command_idx_of(self@, c as int);
                }
                Ok(self.commands[c].clone())
            },
            None => Err(RepoError::CommandNotFound),
        }
    }

    /// One page of the commands created by `user` (read-only, no
    /// authorization).
    pub fn get_user_commands(&self, user: i64, page: u64, page_size: u64) -> (r: Result<
        Vec<commands::Model>,
        RepoError,
    >)
        ensures
            (r matches Ok(v) && v@ == page_window(
                self@.commands.filter(creator_is(user)),
                page,
                page_size,
            )),
    {
        Ok(window_of(self.commands_of(user), page, page_size))
    }

    /// One page of all commands (read-only, no authorization).
    pub fn get_commands(&self, page: u64, page_size: u64) -> (r: Result<
        Vec<commands::Model>,
        RepoError,
    >)
        ensures
            (r matches Ok(v) && v@ == page_window(self@.commands, page, page_size)),
    {
        Ok(window_of(self.all_commands(), page, page_size))
    }

    /// The audit entry with the id.
    pub fn get_action(&self, id: i64) -> (r: Result<actions::Model, RepoError>)
        requires
            self@.wf(),
        ensures
            match r {
                Ok(m) => 1 <= id && id as int <= self@.actions.len() && m == self@.actions[id - 1],
                Err(e) => e == RepoError::ActionNotFound && !(1 <= id && id as int
                    <= self@.actions.len()),
            },
    {
        if 1 <= id && (id as u64) <= (self.actions.len() as u64) {
            let idx = (id - 1) as usize;
            Ok(self.actions[idx].clone())
        } else {
            Err(RepoError::ActionNotFound)
        }
    }

    /// One page of the audit entries on `user` (read-only, no
    /// authorization).
    pub fn get_user_actions(&self, user: i64, page: u64, page_size: u64) -> (r: Result<
        Vec<actions::Model>,
        RepoError,
    >)
        ensures
            (r matches Ok(v) && v@ == page_window(
                self@.actions.filter(subject_is(user)),
                page,
                page_size,
            )),
    {
        Ok(window_of(self.actions_of(user), page, page_size))
    }

    /// One page of the whole audit log (read-only, no authorization).
    pub fn get_actions(&self, page: u64, page_size: u64) -> (r: Result<
        Vec<actions::Model>,
        RepoError,
    >)
        ensures
            (r matches Ok(v) && v@ == page_window(self@.actions, page, page_size)),
    {
        Ok(window_of(self.all_actions(), page, page_size))
    }

    /// The account holding the handle.
    pub fn get_user_by_username(&self, username: String) -> (r: Result<users::Model, RepoError>)
        requires
            self@.wf(),
        ensures
            match r {
                Ok(m) => self@.has_handle(username@) && m == self@.users[self@.handle_idx(
                    username@,
                )],
                Err(e) => e == RepoError::NotFound && !self@.has_handle(username@),
            },
    {
        let mut i: usize = 0;
        while i < self.users.len()
            invariant
                self@.wf(),
                i <= self@.users.len(),
                forall|j: int|
                    0 <= j < i ==> !((#[trigger] self@.users[j]).username is Some
                        && self@.users[j].username->0@ == username@),
            decreases self@.users.len() - i,
        {
            match &self.users[i].username {
                Some(u) => {
                    if *u == username {
                        proof {
                            lemma_handle_idx_of(self@, i as int);
                        }
                        return Ok(self.users[i].clone());
                    }
                },
                None => {},
            }
            i += 1;
        }
        Err(RepoError::NotFound)
    }
}

} // verus!
