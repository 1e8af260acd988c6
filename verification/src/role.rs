use vstd::prelude::*;

verus! {

/// The role of an account, totally ordered:
/// `Blocked < User < Moderator < Creator`.
///
/// Every authorization rule is a comparison in this order ("at least
/// Moderator", "exactly Creator"). `Blocked` accounts may not act at all.
#[derive(Clone, Copy, Debug, PartialEq, Eq, Structural)]
pub enum Role {
    Blocked,
    User,
    Moderator,
    Creator,
}

impl Role {
    /// Position of the role in the total order; larger means more rights.
    pub open spec fn rank(self) -> int {
        match self {
            Role::Blocked => 0,
            Role::User => 1,
            Role::Moderator => 2,
            Role::Creator => 3,
        }
    }

    /// `self` grants at least the rights of `other`.
    pub fn at_least(self, other: Role) -> (b: bool)
        ensures
            b == (self.rank() >= other.rank()),
    {
        self.rank_exec() >= other.rank_exec()
    }

    fn rank_exec(self) -> (n: u8)
        ensures
            n as int == self.rank(),
    {
        match self {
            Role::Blocked => 0,
            Role::User => 1,
            Role::Moderator => 2,
            Role::Creator => 3,
        }
    }
}

/// Chooses the role of an account the first time it is registered.
///
/// At most one designated id (from external configuration) is mapped to
/// `Creator`; everyone else starts as `User`. The single `Creator` is
/// assigned only here, never through the mutation API.
pub struct RoleSelector {
    creator: Option<i64>,
}

impl RoleSelector {
    /// The id configured to become `Creator`, if any.
    pub closed spec fn creator_id(self) -> Option<i64> {
        self.creator
    }

    pub fn new(creator: Option<i64>) -> (s: Self)
        ensures
            s.creator_id() == creator,
    {
        Self { creator }
    }

    /// The initial role for the account `id`.
    pub fn select(&self, id: i64) -> (r: Role)
        ensures
            r == (if self.creator_id() == Some(id) {
                Role::Creator
            } else {
                Role::User
            }),
    {
        match self.creator {
            Some(creator) if creator == id => Role::Creator,
            _ => Role::User,
        }
    }
}

} // verus!
