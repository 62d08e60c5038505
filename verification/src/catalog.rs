//! The fixed catalog: the five permissions, the five actions, and the table
//! that gives each action the one permission it requires.

use vstd::prelude::*;

verus! {

/// An atomic capability that a role may grant.
#[derive(Clone, Copy, Debug, PartialEq, Eq, Structural, Hash)]
pub enum Permission {
    /// May read resources.
    Read,
    /// May create resources.
    Create,
    /// May update resources.
    Update,
    /// May delete resources.
    Delete,
    /// May perform administrative operations.
    Admin,
}

/// A business-level operation that a caller attempts.
#[derive(Clone, Copy, Debug, PartialEq, Eq, Structural, Hash)]
pub enum Action {
    CreateResource,
    ReadResource,
    UpdateResource,
    DeleteResource,
    AdminOperation,
}

/// The permission that an action requires: a total, one-to-one table.
pub open spec fn required_permission_spec(action: Action) -> Permission {
    match action {
        Action::CreateResource => Permission::Create,
        Action::ReadResource => Permission::Read,
        Action::UpdateResource => Permission::Update,
        Action::DeleteResource => Permission::Delete,
        Action::AdminOperation => Permission::Admin,
    }
}

/// Looks an action up in the table of required permissions.
#[verifier::when_used_as_spec(required_permission_spec)]
pub fn required_permission(action: Action) -> (permission: Permission)
    ensures
        permission == required_permission_spec(action),
{
    match action {
        Action::CreateResource => Permission::Create,
        Action::ReadResource => Permission::Read,
        Action::UpdateResource => Permission::Update,
        Action::DeleteResource => Permission::Delete,
        Action::AdminOperation => Permission::Admin,
    }
}

/// Whether `permission` occurs in `granted`. Duplicates in `granted` do not
/// matter: only membership is tested.
pub fn grants(granted: &Vec<Permission>, permission: Permission) -> (found: bool)
    ensures
        found == granted@.contains(permission),
{
    let mut i: usize = 0;
    while i < granted.len()
        invariant
            i <= granted.len(),
            forall|j: int| 0 <= j < i ==> granted@[j] != permission,
        decreases granted.len() - i,
    {
        if granted[i] == permission {
            return true;
        }
        i += 1;
    }
    false
}

/// No two actions require the same permission.
pub proof fn lemma_required_permission_injective(a: Action, b: Action)
    requires
        required_permission_spec(a) == required_permission_spec(b),
    ensures
        a == b,
{
}

} // verus!
