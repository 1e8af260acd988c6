use vstd::prelude::*;

verus! {

/// The kind of a completed state-changing operation, recorded in the
/// audit log.
#[derive(Clone, Copy, Debug, PartialEq, Eq, Structural)]
pub enum Type {
    Unknown,
    CreateUser,
    BlockUser,
    UnblockUser,
    PromoteUser,
    DemoteUser,
    WarnUser,
    UnWarnUser,
    CreateCommand,
    DeleteCommand,
    EditCommand,
    UseCommand,
}

/// The structured payload of an audit entry. Each operation fills only
/// the fields that concern it and leaves the rest `None`.
#[derive(Debug)]
pub struct Description {
    /// The actor that performed the operation, where it differs from the
    /// subject of the entry.
    pub by: Option<i64>,
    /// The warning count right after a warn or un-warn.
    pub warns: Option<i64>,
    /// The name of the command concerned.
    pub command: Option<String>,
    /// The action text written to the command.
    pub action: Option<String>,
}

impl Description {
    /// A payload with no fields set.
    pub open spec fn spec_empty() -> Description {
        Description { by: None, warns: None, command: None, action: None }
    }

    /// A payload holding only the acting account.
    pub open spec fn spec_by(by: i64) -> Description {
        Description { by: Some(by), warns: None, command: None, action: None }
    }

    /// A payload holding the acting account and a warning count.
    pub open spec fn spec_warns(by: i64, warns: i64) -> Description {
        Description { by: Some(by), warns: Some(warns), command: None, action: None }
    }
}

impl Clone for Description {
    fn clone(&self) -> (r: Self)
        ensures
            r == *self,
    {
        Description {
            by: self.by,
            warns: self.warns,
            command: match &self.command {
                Some(c) => Some(c.clone()),
                None => None,
            },
            action: match &self.action {
                Some(a) => Some(a.clone()),
                None => None,
            },
        }
    }
}

/// One append-only audit entry: a completed mutation on the account
/// `user_id`. Ids are assigned in order of creation, starting at 1;
/// entries are never changed or removed.
#[derive(Debug)]
pub struct Model {
    pub id: i64,
    pub user_id: i64,
    pub action_type: Type,
    pub description: Description,
    pub created_at: i64,
}

impl Clone for Model {
    fn clone(&self) -> (r: Self)
        ensures
            r == *self,
    {
        Model {
            id: self.id,
            user_id: self.user_id,
            action_type: self.action_type,
            description: self.description.clone(),
            created_at: self.created_at,
        }
    }
}

} // verus!
