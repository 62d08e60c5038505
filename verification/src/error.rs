//! The ways in which an operation fails.

use vstd::prelude::*;

verus! {

/// Why an operation was refused. Every error is final for the operation that
/// returns it: nothing is retried and no state is changed.
#[derive(Clone, Copy, Debug, PartialEq, Eq, Structural, Hash)]
pub enum RbacError {
    /// The name of a role is longer than the limit.
    RoleNameTooLong,
    /// No role is filed under the name that was asked for.
    RoleNotFound,
    /// An assignment names another role than the one it is held against.
    UserRoleMismatch,
    /// The role does not grant the permission that the action requires.
    PermissionDenied,
    /// The caller is not the administrator.
    NotAuthorized,
    /// A record already exists under the key that was to be created.
    KeyConflict,
    /// No record exists under the key that was to be used.
    KeyNotFound,
}

impl RbacError {
    /// The text that goes with each kind of error.
    pub open spec fn message_spec(self) -> Seq<char> {
        match self {
            RbacError::RoleNameTooLong => "Role name exceeds maximum length of 32 characters"@,
            RbacError::RoleNotFound => "Role not found"@,
            RbacError::UserRoleMismatch => "User role assignment does not match"@,
            RbacError::PermissionDenied => "Permission denied"@,
            RbacError::NotAuthorized => "Only admin can perform this action"@,
            RbacError::KeyConflict => "Record already exists"@,
            RbacError::KeyNotFound => "Record not found"@,
        }
    }

    /// The message that is shown to the caller together with the kind.
    pub fn message(&self) -> (text: &'static str)
        ensures
            text@ == self.message_spec(),
    {
        match self {
            RbacError::RoleNameTooLong => "Role name exceeds maximum length of 32 characters",
            RbacError::RoleNotFound => "Role not found",
            RbacError::UserRoleMismatch => "User role assignment does not match",
            RbacError::PermissionDenied => "Permission denied",
            RbacError::NotAuthorized => "Only admin can perform this action",
            RbacError::KeyConflict => "Record already exists",
            RbacError::KeyNotFound => "Record not found",
        }
    }
}

} // verus!
