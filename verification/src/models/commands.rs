use vstd::prelude::*;

verus! {

/// One shared text command.
///
/// The non-empty `name` is the primary key. `creator_id` refers to the
/// account that created the command and never changes afterwards;
/// `times_used` counts successful uses and starts at zero.
#[derive(Debug)]
pub struct Model {
    pub name: String,
    pub action: String,
    pub creator_id: i64,
    pub times_used: i64,
    pub created_at: i64,
}

impl Clone for Model {
    fn clone(&self) -> (r: Self)
        ensures
            r == *self,
    {
        Model {
            name: self.name.clone(),
            action: self.action.clone(),
            creator_id: self.creator_id,
            times_used: self.times_used,
            created_at: self.created_at,
        }
    }
}

} // verus!
