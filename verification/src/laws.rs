//! What holds of the system whatever its contents: statements that relate
//! several operations, each proved from the definitions in `system`.

use vstd::prelude::*;

use crate::catalog::{required_permission_spec, Action, Permission};
use crate::error::RbacError;
use crate::identity::Identity;
use crate::operations::decide_permission;
use crate::records::{name_fits, RbacState, RoleView, UserRoleView};
use crate::system::SystemView;

verus! {

/// Whether every role of `before` stands in `after` unchanged.
pub open spec fn roles_kept(before: SystemView, after: SystemView) -> bool {
    forall|name: Seq<char>| #[trigger]
        before.roles.contains_key(name) ==> after.roles.contains_key(name) && after.roles[name]
            == before.roles[name]
}

/// The state is created once: after an initialization, another one is
/// refused with `KeyConflict`, whoever asks.
pub proof fn law_initialized_once(system: SystemView, caller: Identity)
    ensures
        system.after_initialize(caller).initialize_refusal() == Some(RbacError::KeyConflict),
{
}

/// Once the state exists, no operation changes the administrator, and the
/// counters only go up: the creation of a role adds one to the role
/// counter, an assignment adds one to the user counter, and a revocation
/// leaves both as they are.
pub proof fn law_state_only_counts(
    system: SystemView,
    caller: Identity,
    user: Identity,
    name: Seq<char>,
    permissions: Seq<Permission>,
    now: i64,
)
    requires
        system.state matches Some(state) && state.role_count < u32::MAX && state.user_count
            < u32::MAX,
    ensures
        system.after_create_role(name, permissions, now).state == Some(
            RbacState {
                admin: system.state.unwrap().admin,
                role_count: (system.state.unwrap().role_count + 1) as u32,
                user_count: system.state.unwrap().user_count,
            },
        ),
        system.after_create_role(name, permissions, now).state.unwrap().role_count
            == system.state.unwrap().role_count + 1,
        system.after_assign_role(caller, user, name, now).state == Some(
            RbacState {
                admin: system.state.unwrap().admin,
                role_count: system.state.unwrap().role_count,
                user_count: (system.state.unwrap().user_count + 1) as u32,
            },
        ),
        system.after_assign_role(caller, user, name, now).state.unwrap().user_count
            == system.state.unwrap().user_count + 1,
        system.after_revoke_role(user).state == system.state,
{
}

/// A role that was created reads back as it was given: under its name
/// stand that name, those permissions and the time of creation.
pub proof fn law_created_role_reads_back(
    system: SystemView,
    caller: Identity,
    name: Seq<char>,
    permissions: Seq<Permission>,
    now: i64,
)
    requires
        system.create_role_refusal(caller, name) is None,
    ensures
        system.after_create_role(name, permissions, now).roles.contains_key(name),
        system.after_create_role(name, permissions, now).roles[name] == (RoleView {
            name,
            permissions,
            created_at: now,
        }),
{
}

/// No operation changes or removes a role: after any of them that was not
/// refused, every role that existed before stands as it was.
pub proof fn law_roles_never_change(
    system: SystemView,
    caller: Identity,
    user: Identity,
    name: Seq<char>,
    permissions: Seq<Permission>,
    now: i64,
)
    ensures
        roles_kept(system, system.after_initialize(caller)),
        system.create_role_refusal(caller, name) is None ==> roles_kept(
            system,
            system.after_create_role(name, permissions, now),
        ),
        roles_kept(system, system.after_assign_role(caller, user, name, now)),
        roles_kept(system, system.after_revoke_role(user)),
{
}

/// Where the administrator asks for a role under a name that fits and is
/// taken, the refusal is `KeyConflict`.
pub proof fn law_taken_name_conflicts(system: SystemView, caller: Identity, name: Seq<char>)
    requires
        system.state matches Some(state) && state.admin == caller,
        name_fits(name),
        system.roles.contains_key(name),
    ensures
        system.create_role_refusal(caller, name) == Some(RbacError::KeyConflict),
{
}

/// A role cannot be created twice: once a role was created, the same
/// caller's request for a role of the same name is refused with
/// `KeyConflict`, whatever the permissions.
pub proof fn law_role_created_once(
    system: SystemView,
    caller: Identity,
    name: Seq<char>,
    permissions: Seq<Permission>,
    now: i64,
)
    requires
        system.create_role_refusal(caller, name) is None,
    ensures
        system.after_create_role(name, permissions, now).create_role_refusal(caller, name) == Some(
            RbacError::KeyConflict,
        ),
{
}

/// Where the state exists and the role exists, assigning it to a user who
/// holds an assignment is refused with `KeyConflict`.
pub proof fn law_assigned_user_conflicts(system: SystemView, user: Identity, role_name: Seq<char>)
    requires
        system.state is Some,
        system.roles.contains_key(role_name),
        system.assignments.contains_key(user),
    ensures
        system.assign_role_refusal(user, role_name) == Some(RbacError::KeyConflict),
{
}

/// A user holds one role at a time: once a role was assigned, assigning any
/// existing role to the same user is refused with `KeyConflict`.
pub proof fn law_one_role_at_a_time(
    system: SystemView,
    caller: Identity,
    user: Identity,
    role_name: Seq<char>,
    other_role: Seq<char>,
    now: i64,
)
    requires
        system.assign_role_refusal(user, role_name) is None,
        system.roles.contains_key(other_role),
    ensures
        system.after_assign_role(caller, user, role_name, now).assign_role_refusal(
            user,
            other_role,
        ) == Some(RbacError::KeyConflict),
{
}

/// For a user who is assigned a role that exists, the check of a permission
/// succeeds, and says yes exactly when the permission is among those of the
/// role.
pub proof fn law_check_is_membership(system: SystemView, user: Identity, permission: Permission)
    requires
        system.filed_by_key(),
        system.assignments.contains_key(user),
        system.roles.contains_key(system.assignments[user].role),
    ensures
        system.permission_decision(user, permission) == Ok::<bool, RbacError>(
            system.roles[system.assignments[user].role].permissions.contains(permission),
        ),
{
}

/// Right after a role was assigned, the check of a permission for that user
/// says whether the permission is among those of that role.
pub proof fn law_check_after_assign(
    system: SystemView,
    caller: Identity,
    user: Identity,
    role_name: Seq<char>,
    permission: Permission,
    now: i64,
)
    requires
        system.filed_by_key(),
        system.assign_role_refusal(user, role_name) is None,
    ensures
        system.after_assign_role(caller, user, role_name, now).permission_decision(
            user,
            permission,
        ) == Ok::<bool, RbacError>(system.roles[role_name].permissions.contains(permission)),
{
}

/// For a user who is assigned a role that exists, an action goes ahead
/// exactly when the role holds the permission that the action requires, and
/// is refused with `PermissionDenied` otherwise. So deleting a resource goes
/// ahead exactly when the role holds `Delete`.
pub proof fn law_action_needs_its_permission(system: SystemView, user: Identity, action: Action)
    requires
        system.filed_by_key(),
        system.assignments.contains_key(user),
        system.roles.contains_key(system.assignments[user].role),
    ensures
        system.roles[system.assignments[user].role].permissions.contains(
            required_permission_spec(action),
        ) ==> system.action_decision(user, action) == Ok::<Permission, RbacError>(
            required_permission_spec(action),
        ),
        !system.roles[system.assignments[user].role].permissions.contains(
            required_permission_spec(action),
        ) ==> system.action_decision(user, action) == Err::<Permission, RbacError>(
            RbacError::PermissionDenied,
        ),
        system.action_decision(user, Action::DeleteResource) is Ok
            <==> system.roles[system.assignments[user].role].permissions.contains(
            Permission::Delete,
        ),
{
}

/// Where the administrator asks for a role, a name that is too long is
/// refused with `RoleNameTooLong`, and a name that fits and is free is not
/// refused.
pub proof fn law_name_length_decides(system: SystemView, caller: Identity, name: Seq<char>)
    requires
        system.state matches Some(state) && state.admin == caller,
    ensures
        !name_fits(name) ==> system.create_role_refusal(caller, name) == Some(
            RbacError::RoleNameTooLong,
        ),
        name_fits(name) && !system.roles.contains_key(name) ==> system.create_role_refusal(
            caller,
            name,
        ) is None,
{
}

/// A revocation frees the user's key: after it, any existing role can be
/// assigned to that user.
pub proof fn law_revoke_frees_the_key(system: SystemView, user: Identity, role_name: Seq<char>)
    requires
        system.state is Some,
        system.revoke_role_refusal(user) is None,
        system.roles.contains_key(role_name),
    ensures
        system.after_revoke_role(user).assign_role_refusal(user, role_name) is None,
{
}

/// After a revocation the user holds no assignment: a check for that user
/// is refused with `KeyNotFound`.
pub proof fn law_revoked_user_is_unknown(system: SystemView, user: Identity, permission: Permission)
    ensures
        system.after_revoke_role(user).permission_decision(user, permission) == Err::<
            bool,
            RbacError,
        >(RbacError::KeyNotFound),
{
}

/// An assignment that names a role which does not exist is an error, never
/// a silent yes or no: the check is refused with `RoleNotFound`, and so is
/// an action.
pub proof fn law_dangling_assignment_is_refused(
    system: SystemView,
    user: Identity,
    permission: Permission,
    action: Action,
)
    requires
        system.assignments.contains_key(user),
        !system.roles.contains_key(system.assignments[user].role),
    ensures
        system.permission_decision(user, permission) == Err::<bool, RbacError>(
            RbacError::RoleNotFound,
        ),
        system.action_decision(user, action) == Err::<Permission, RbacError>(
            RbacError::RoleNotFound,
        ),
{
}

/// An assignment held against a role of another name is an error, never a
/// silent yes or no: the decision is `UserRoleMismatch`.
pub proof fn law_mismatch_is_refused(
    assignment: UserRoleView,
    role: RoleView,
    permission: Permission,
)
    requires
        assignment.role != role.name,
    ensures
        decide_permission(assignment, role, permission) == Err::<bool, RbacError>(
            RbacError::UserRoleMismatch,
        ),
{
}

/// The system never answers a check with `UserRoleMismatch`: what it finds
/// under the name that an assignment holds is the role of that name.
pub proof fn law_lookup_is_consistent(system: SystemView, user: Identity, permission: Permission)
    requires
        system.filed_by_key(),
    ensures
        system.permission_decision(user, permission) != Err::<bool, RbacError>(
            RbacError::UserRoleMismatch,
        ),
{
}

} // verus!
