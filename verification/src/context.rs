//! The records that each operation works on, looked up and handed over
//! together with the caller's identity.

use vstd::prelude::*;

use crate::identity::Identity;
use crate::records::{RbacState, Role, UserRole};

verus! {

/// What initialization works on.
pub struct Initialize {
    /// The record of the authorization state, blank until the operation
    /// fills it.
    pub rbac_state: RbacState,
    /// The caller, who becomes the administrator.
    pub admin: Identity,
}

/// What the creation of a role works on.
pub struct CreateRole {
    /// The authorization state, whose role counter the operation advances.
    pub rbac_state: RbacState,
    /// The record under the new role's key, blank until the operation
    /// fills it.
    pub role: Role,
    /// The caller.
    pub admin: Identity,
}

/// What the assignment of a role works on.
pub struct AssignRole<'a> {
    /// The authorization state, whose user counter the operation advances.
    pub rbac_state: RbacState,
    /// The role found under the name that is being assigned.
    pub role: &'a Role,
    /// The record under the user's key, blank until the operation fills it.
    pub user_role: UserRole,
    /// The caller.
    pub authority: Identity,
}

/// What a permission check works on.
pub struct CheckPermission<'a> {
    /// The role found under the name that the assignment holds.
    pub role: &'a Role,
    /// The user's assignment.
    pub user_role: &'a UserRole,
}

/// What the revocation of a role works on.
pub struct RevokeRole<'a> {
    /// The assignment that is being destroyed.
    pub user_role: &'a UserRole,
    /// The caller.
    pub authority: Identity,
}

/// What the execution of an action works on.
pub struct ExecuteAction<'a> {
    /// The role found under the name that the assignment holds.
    pub role: &'a Role,
    /// The caller's assignment.
    pub user_role: &'a UserRole,
    /// The caller.
    pub user: Identity,
}

} // verus!
