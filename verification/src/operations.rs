//! The six operations, each on the records that were looked up for it.
//!
//! An operation here decides, fills records and makes the audit record. It
//! does not look anything up by key, and it does not store anything: that is
//! the part of `RbacSystem`.

use vstd::prelude::*;

use crate::catalog::{required_permission, required_permission_spec, Action, Permission};
use crate::context::{AssignRole, CheckPermission, CreateRole, ExecuteAction, Initialize, RevokeRole};
use crate::error::RbacError;
use crate::events::{
    ActionExecuted, PermissionChecked, RbacInitialized, RoleAssigned, RoleAssignedView,
    RoleCreated, RoleCreatedView, RoleRevoked,
};
use crate::identity::Identity;
use crate::records::{check_name_fits, name_fits, RbacState, RoleView, UserRoleView};

verus! {

/// The decision on a permission, given an assignment and the role record it
/// is held against: an error if the assignment names another role, otherwise
/// whether the role grants the permission.
pub open spec fn decide_permission(
    assignment: UserRoleView,
    role: RoleView,
    permission: Permission,
) -> Result<bool, RbacError> {
    if assignment.role != role.name {
        Err(RbacError::UserRoleMismatch)
    } else {
        Ok(role.grants(permission))
    }
}

/// The decision on an action, given an assignment and the role record it is
/// held against: the permission under which the action goes ahead, or why it
/// does not.
pub open spec fn decide_action(assignment: UserRoleView, role: RoleView, action: Action) -> Result<
    Permission,
    RbacError,
> {
    if assignment.role != role.name {
        Err(RbacError::UserRoleMismatch)
    } else if !role.grants(required_permission_spec(action)) {
        Err(RbacError::PermissionDenied)
    } else {
        Ok(required_permission_spec(action))
    }
}

/// Why the creation of a role is refused, if it is: the caller is not the
/// administrator, or else the name is too long.
pub open spec fn create_role_refusal(state: RbacState, caller: Identity, name: Seq<char>) -> Option<
    RbacError,
> {
    if state.admin != caller {
        Some(RbacError::NotAuthorized)
    } else if !name_fits(name) {
        Some(RbacError::RoleNameTooLong)
    } else {
        None
    }
}

/// Finds out whether the creation of a role is refused, and why.
pub fn check_create_role(state: &RbacState, caller: &Identity, role_name: &str) -> (refusal: Option<
    RbacError,
>)
    ensures
        refusal == create_role_refusal(*state, *caller, role_name@),
{
    if state.admin != *caller {
        Some(RbacError::NotAuthorized)
    } else if !check_name_fits(role_name) {
        Some(RbacError::RoleNameTooLong)
    } else {
        None
    }
}

/// Authorizes an action: the caller's assignment must name the role it is
/// held against, and that role must grant the permission that the action
/// requires. Nothing is done to any resource; the result is the decision and
/// its audit record.
pub fn execute_action(ctx: &ExecuteAction, action: Action, now: i64) -> (result: Result<
    ActionExecuted,
    RbacError,
>)
    ensures
        result == match decide_action(ctx.user_role@, ctx.role@, action) {
            Ok(permission) => Ok(
                ActionExecuted { user: ctx.user, action, permission, timestamp: now },
            ),
            Err(e) => Err(e),
        },
{
    if ctx.user_role.role != ctx.role.name {
        return Err(RbacError::UserRoleMismatch);
    }
    let required = required_permission(action);
    if !ctx.role.grants(required) {
        return Err(RbacError::PermissionDenied);
    }
    Ok(ActionExecuted { user: ctx.user, action, permission: required, timestamp: now })
}

/// Assigns the role in `ctx` to `user`: fills the assignment record and
/// advances the user counter. Fails with `RoleNotFound` if the role record
/// is not the one named `role_name`.
pub fn assign_role(ctx: &mut AssignRole, user: Identity, role_name: String, now: i64) -> (result:
    Result<RoleAssigned, RbacError>)
    requires
        old(ctx).role@.name == role_name@ ==> old(ctx).rbac_state.user_count < u32::MAX,
    ensures
        final(ctx).role == old(ctx).role,
        final(ctx).authority == old(ctx).authority,
        old(ctx).role@.name != role_name@ ==> result == Err::<RoleAssigned, RbacError>(
            RbacError::RoleNotFound,
        ) && *final(ctx) == *old(ctx),
        old(ctx).role@.name == role_name@ ==> {
            &&& result matches Ok(record)
            &&& record@ == (RoleAssignedView {
                user,
                role: role_name@,
                assigned_by: old(ctx).authority,
                timestamp: now,
            })
            &&& final(ctx).user_role@ == (UserRoleView {
                user,
                role: role_name@,
                assigned_at: now,
                assigned_by: old(ctx).authority,
            })
            &&& final(ctx).rbac_state == (RbacState {
                user_count: (old(ctx).rbac_state.user_count + 1) as u32,
                ..old(ctx).rbac_state
            })
        },
{
    if ctx.role.name != role_name {
        return Err(RbacError::RoleNotFound);
    }
    ctx.user_role.user = user;
    ctx.user_role.role = role_name.clone();
    ctx.user_role.assigned_at = now;
    ctx.user_role.assigned_by = ctx.authority;
    ctx.rbac_state.user_count = ctx.rbac_state.user_count + 1;
    Ok(RoleAssigned { user, role: role_name, assigned_by: ctx.authority, timestamp: now })
}

/// Creates a role: fills the role record and advances the role counter.
/// Only the administrator may do so, and the name must fit.
pub fn create_role(
    ctx: &mut CreateRole,
    role_name: String,
    permissions: Vec<Permission>,
    now: i64,
) -> (result: Result<RoleCreated, RbacError>)
    requires
        create_role_refusal(old(ctx).rbac_state, old(ctx).admin, role_name@) is None ==> old(
            ctx,
        ).rbac_state.role_count < u32::MAX,
    ensures
        final(ctx).admin == old(ctx).admin,
        match create_role_refusal(old(ctx).rbac_state, old(ctx).admin, role_name@) {
            Some(e) => result == Err::<RoleCreated, RbacError>(e) && *final(ctx) == *old(ctx),
            None => {
                &&& result matches Ok(record)
                &&& record@ == (RoleCreatedView {
                    name: role_name@,
                    permissions: permissions@,
                    timestamp: now,
                })
                &&& final(ctx).role@ == (RoleView {
                    name: role_name@,
                    permissions: permissions@,
                    created_at: now,
                })
                &&& final(ctx).rbac_state == (RbacState {
                    role_count: (old(ctx).rbac_state.role_count + 1) as u32,
                    ..old(ctx).rbac_state
                })
            },
        },
{
    if let Some(e) = check_create_role(&ctx.rbac_state, &ctx.admin, role_name.as_str()) {
        return Err(e);
    }
    ctx.role.name = role_name.clone();
    ctx.role.permissions = permissions.clone();
    ctx.role.created_at = now;
    ctx.rbac_state.role_count = ctx.rbac_state.role_count + 1;
    Ok(RoleCreated { name: role_name, permissions, timestamp: now })
}

/// Decides whether the role in `ctx` grants `permission`, after checking
/// that the assignment in `ctx` names that role. The audit record carries
/// the decision in `result`.
pub fn check_permission(ctx: &CheckPermission, user: Identity, permission: Permission, now: i64) -> (result:
    Result<PermissionChecked, RbacError>)
    ensures
        result == match decide_permission(ctx.user_role@, ctx.role@, permission) {
            Ok(granted) => Ok(
                PermissionChecked { user, permission, result: granted, timestamp: now },
            ),
            Err(e) => Err(e),
        },
{
    if ctx.user_role.role != ctx.role.name {
        return Err(RbacError::UserRoleMismatch);
    }
    let has_permission = ctx.role.grants(permission);
    Ok(PermissionChecked { user, permission, result: has_permission, timestamp: now })
}

/// Fills the authorization state: the caller becomes the administrator, the
/// user counter starts at zero and the role counter at one. That one is a
/// seed: no role record stands behind it.
pub fn initialize(ctx: &mut Initialize, now: i64) -> (record: RbacInitialized)
    ensures
        final(ctx).admin == old(ctx).admin,
        final(ctx).rbac_state == (RbacState {
            admin: old(ctx).admin,
            role_count: 1,
            user_count: 0,
        }),
        record == (RbacInitialized { admin: old(ctx).admin, timestamp: now }),
{
    ctx.rbac_state.admin = ctx.admin;
    ctx.rbac_state.role_count = 1;
    ctx.rbac_state.user_count = 0;
    RbacInitialized { admin: ctx.admin, timestamp: now }
}

/// Makes the audit record of a revocation. The assignment in `ctx` is
/// destroyed by whoever holds it; any caller may revoke.
pub fn revoke_role(ctx: &RevokeRole, user: Identity, now: i64) -> (record: RoleRevoked)
    ensures
        record == (RoleRevoked { user, revoked_by: ctx.authority, timestamp: now }),
{
    RoleRevoked { user, revoked_by: ctx.authority, timestamp: now }
}

} // verus!
