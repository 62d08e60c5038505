//! The audit records. Every operation that changes state, and every
//! decision, hands one back to be appended to the audit trail.

use vstd::prelude::*;

use crate::catalog::{Action, Permission};
use crate::identity::Identity;

verus! {

/// The authorization state was created.
#[derive(Clone, Copy, Debug, PartialEq, Eq)]
pub struct RbacInitialized {
    pub admin: Identity,
    pub timestamp: i64,
}

/// What a `RoleCreated` record says, mathematically.
pub struct RoleCreatedView {
    pub name: Seq<char>,
    pub permissions: Seq<Permission>,
    pub timestamp: i64,
}

/// A role was created.
#[derive(Debug, PartialEq, Eq)]
pub struct RoleCreated {
    pub name: String,
    pub permissions: Vec<Permission>,
    pub timestamp: i64,
}

impl View for RoleCreated {
    type V = RoleCreatedView;

    open spec fn view(&self) -> RoleCreatedView {
        RoleCreatedView {
            name: self.name@,
            permissions: self.permissions@,
            timestamp: self.timestamp,
        }
    }
}

impl Clone for RoleCreated {
    /// A copy that says the same.
    fn clone(&self) -> (copy: RoleCreated)
        ensures
            copy@ == self@,
    {
        RoleCreated {
            name: self.name.clone(),
            permissions: self.permissions.clone(),
            timestamp: self.timestamp,
        }
    }
}

/// What a `RoleAssigned` record says, mathematically.
pub struct RoleAssignedView {
    pub user: Identity,
    pub role: Seq<char>,
    pub assigned_by: Identity,
    pub timestamp: i64,
}

/// A role was assigned to a user.
#[derive(Debug, PartialEq, Eq)]
pub struct RoleAssigned {
    pub user: Identity,
    pub role: String,
    pub assigned_by: Identity,
    pub timestamp: i64,
}

impl View for RoleAssigned {
    type V = RoleAssignedView;

    open spec fn view(&self) -> RoleAssignedView {
        RoleAssignedView {
            user: self.user,
            role: self.role@,
            assigned_by: self.assigned_by,
            timestamp: self.timestamp,
        }
    }
}

impl Clone for RoleAssigned {
    /// A copy that says the same.
    fn clone(&self) -> (copy: RoleAssigned)
        ensures
            copy@ == self@,
    {
        RoleAssigned {
            user: self.user,
            role: self.role.clone(),
            assigned_by: self.assigned_by,
            timestamp: self.timestamp,
        }
    }
}

/// A permission was checked. The record is made although the check changes
/// nothing: the audit trail holds one entry for every decision.
#[derive(Clone, Copy, Debug, PartialEq, Eq)]
pub struct PermissionChecked {
    pub user: Identity,
    pub permission: Permission,
    /// The decision: whether the user's role grants the permission.
    pub result: bool,
    pub timestamp: i64,
}

/// A user's role was revoked.
#[derive(Clone, Copy, Debug, PartialEq, Eq)]
pub struct RoleRevoked {
    pub user: Identity,
    pub revoked_by: Identity,
    pub timestamp: i64,
}

/// An action was authorized.
#[derive(Clone, Copy, Debug, PartialEq, Eq)]
pub struct ActionExecuted {
    pub user: Identity,
    pub action: Action,
    /// The permission that the action required.
    pub permission: Permission,
    pub timestamp: i64,
}

} // verus!
