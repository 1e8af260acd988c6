use vstd::prelude::*;

use crate::role::Role;

verus! {

/// One account row of the registry.
///
/// The id is assigned by the caller (it comes from the chat platform) and
/// is stable; accounts are never deleted. `warns` never goes below zero.
/// `username` is the optional unique handle used for lookup; `nickname`
/// is the mutable display name.
#[derive(Debug)]
pub struct Model {
    pub id: i64,
    pub role: Role,
    pub username: Option<String>,
    pub nickname: String,
    pub warns: i64,
    pub created_at: i64,
}

impl Clone for Model {
    fn clone(&self) -> (r: Self)
        ensures
            r == *self,
    {
        Model {
            id: self.id,
            role: self.role,
            username: match &self.username {
                Some(u) => Some(u.clone()),
                None => None,
            },
            nickname: self.nickname.clone(),
            warns: self.warns,
            created_at: self.created_at,
        }
    }
}

} // verus!
