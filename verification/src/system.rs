//! The whole authorization system: the state, the two stores, and the six
//! operations as a caller sees them.
//!
//! Each operation looks up the records it needs, hands them to the operation
//! of the same name in `operations`, and stores what that one filled. It
//! either applies in full or leaves the system as it was.

use vstd::prelude::*;

use crate::assignment_store::AssignmentStore;
use crate::catalog::{Action, Permission};
use crate::context::{AssignRole, CheckPermission, CreateRole, ExecuteAction, Initialize, RevokeRole};
use crate::error::RbacError;
use crate::events::{
    ActionExecuted, PermissionChecked, RbacInitialized, RoleAssigned, RoleAssignedView,
    RoleCreated, RoleCreatedView, RoleRevoked,
};
use crate::identity::Identity;
use crate::operations::{
    assign_role, check_create_role, check_permission, create_role, create_role_refusal,
    decide_action, decide_permission, execute_action, initialize, revoke_role,
};
use crate::records::{RbacState, Role, RoleView, UserRole, UserRoleView};
use crate::role_store::RoleStore;

verus! {

/// What the system is, mathematically: the state if it was created, the
/// roles by name and the assignments by user.
pub struct SystemView {
    pub state: Option<RbacState>,
    pub roles: Map<Seq<char>, RoleView>,
    pub assignments: Map<Identity, UserRoleView>,
}

impl SystemView {
    /// The system before anything was created.
    pub open spec fn empty() -> SystemView {
        SystemView { state: None, roles: Map::empty(), assignments: Map::empty() }
    }

    /// Whether every record is filed under its own key: a role under its
    /// name, an assignment under its user.
    pub open spec fn filed_by_key(self) -> bool {
        &&& forall|name: Seq<char>| #[trigger]
            self.roles.contains_key(name) ==> self.roles[name].name == name
        &&& forall|user: Identity| #[trigger]
            self.assignments.contains_key(user) ==> self.assignments[user].user == user
    }

    /// Why initialization is refused, if it is: the state already exists.
    pub open spec fn initialize_refusal(self) -> Option<RbacError> {
        if self.state is Some {
            Some(RbacError::KeyConflict)
        } else {
            None
        }
    }

    /// The system after `caller` initialized it.
    pub open spec fn after_initialize(self, caller: Identity) -> SystemView {
        SystemView {
            state: Some(RbacState { admin: caller, role_count: 1, user_count: 0 }),
            ..self
        }
    }

    /// Why the creation of a role is refused, if it is. In this order: the
    /// state does not exist; the caller is not the administrator; the name
    /// is too long; a role of that name exists.
    pub open spec fn create_role_refusal(self, caller: Identity, name: Seq<char>) -> Option<
        RbacError,
    > {
        match self.state {
            None => Some(RbacError::KeyNotFound),
            Some(state) => match create_role_refusal(state, caller, name) {
                Some(e) => Some(e),
                None => if self.roles.contains_key(name) {
                    Some(RbacError::KeyConflict)
                } else {
                    None
                },
            },
        }
    }

    /// The system after a role was created.
    pub open spec fn after_create_role(
        self,
        name: Seq<char>,
        permissions: Seq<Permission>,
        now: i64,
    ) -> SystemView {
        SystemView {
            state: match self.state {
                Some(state) => Some(
                    RbacState { role_count: (state.role_count + 1) as u32, ..state },
                ),
                None => None,
            },
            roles: self.roles.insert(name, RoleView { name, permissions, created_at: now }),
            ..self
        }
    }

    /// Why the assignment of a role is refused, if it is. In this order:
    /// the state does not exist; no role has that name; the user already
    /// holds an assignment.
    pub open spec fn assign_role_refusal(self, user: Identity, role_name: Seq<char>) -> Option<
        RbacError,
    > {
        if self.state is None {
            Some(RbacError::KeyNotFound)
        } else if !self.roles.contains_key(role_name) {
            Some(RbacError::RoleNotFound)
        } else if self.assignments.contains_key(user) {
            Some(RbacError::KeyConflict)
        } else {
            None
        }
    }

    /// The system after `caller` assigned the role named `role_name` to
    /// `user`.
    pub open spec fn after_assign_role(
        self,
        caller: Identity,
        user: Identity,
        role_name: Seq<char>,
        now: i64,
    ) -> SystemView {
        SystemView {
            state: match self.state {
                Some(state) => Some(
                    RbacState { user_count: (state.user_count + 1) as u32, ..state },
                ),
                None => None,
            },
            assignments: self.assignments.insert(
                user,
                UserRoleView { user, role: role_name, assigned_at: now, assigned_by: caller },
            ),
            ..self
        }
    }

    /// Why a revocation is refused, if it is: the user holds no assignment.
    pub open spec fn revoke_role_refusal(self, user: Identity) -> Option<RbacError> {
        if !self.assignments.contains_key(user) {
            Some(RbacError::KeyNotFound)
        } else {
            None
        }
    }

    /// The system after the assignment of `user` was revoked. The user
    /// counter stays as it is.
    pub open spec fn after_revoke_role(self, user: Identity) -> SystemView {
        SystemView { assignments: self.assignments.remove(user), ..self }
    }

    /// The decision on a permission for `user`: an error if the user holds
    /// no assignment, if no role has the name that the assignment holds, or
    /// if the role found is not of that name; otherwise whether the role
    /// grants the permission.
    pub open spec fn permission_decision(self, user: Identity, permission: Permission) -> Result<
        bool,
        RbacError,
    > {
        if !self.assignments.contains_key(user) {
            Err(RbacError::KeyNotFound)
        } else if !self.roles.contains_key(self.assignments[user].role) {
            Err(RbacError::RoleNotFound)
        } else {
            decide_permission(
                self.assignments[user],
                self.roles[self.assignments[user].role],
                permission,
            )
        }
    }

    /// The decision on an action for `user`: the permission under which the
    /// action goes ahead, or why it does not.
    pub open spec fn action_decision(self, user: Identity, action: Action) -> Result<
        Permission,
        RbacError,
    > {
        if !self.assignments.contains_key(user) {
            Err(RbacError::KeyNotFound)
        } else if !self.roles.contains_key(self.assignments[user].role) {
            Err(RbacError::RoleNotFound)
        } else {
            decide_action(
                self.assignments[user],
                self.roles[self.assignments[user].role],
                action,
            )
        }
    }
}

/// The authorization system. The state is absent until `initialize` creates
/// it, once.
pub struct RbacSystem {
    pub state: Option<RbacState>,
    pub roles: RoleStore,
    pub assignments: AssignmentStore,
}

impl View for RbacSystem {
    type V = SystemView;

    open spec fn view(&self) -> SystemView {
        SystemView { state: self.state, roles: self.roles@, assignments: self.assignments@ }
    }
}

impl RbacSystem {
    /// In every system, each record is filed under its own key.
    pub proof fn lemma_filed_by_key(self)
        ensures
            self@.filed_by_key(),
    {
        self.roles.lemma_filed_by_name();
        self.assignments.lemma_filed_by_user();
    }

    /// The system before anything was created.
    pub fn new() -> (system: RbacSystem)
        ensures
            system@ == SystemView::empty(),
    {
        RbacSystem { state: None, roles: RoleStore::new(), assignments: AssignmentStore::new() }
    }

    /// Creates the authorization state with `caller` as administrator.
    /// Fails with `KeyConflict` if the state exists already.
    pub fn initialize(&mut self, caller: Identity, now: i64) -> (result: Result<
        RbacInitialized,
        RbacError,
    >)
        ensures
            match old(self)@.initialize_refusal() {
                Some(e) => result == Err::<RbacInitialized, RbacError>(e) && final(self)@ == old(
                    self,
                )@,
                None => result == Ok::<RbacInitialized, RbacError>(
                    RbacInitialized { admin: caller, timestamp: now },
                ) && final(self)@ == old(self)@.after_initialize(caller),
            },
    {
        if self.state.is_some() {
            return Err(RbacError::KeyConflict);
        }
        let mut ctx = Initialize { rbac_state: RbacState::default(), admin: caller };
        let record = initialize(&mut ctx, now);
        self.state = Some(ctx.rbac_state);
        Ok(record)
    }

    /// Creates the role named `role_name` with the given permissions, on
    /// behalf of `caller`, who must be the administrator.
    pub fn create_role(
        &mut self,
        caller: Identity,
        role_name: String,
        permissions: Vec<Permission>,
        now: i64,
    ) -> (result: Result<RoleCreated, RbacError>)
        requires
            old(self)@.create_role_refusal(caller, role_name@) is None ==> old(
                self,
            )@.state.unwrap().role_count < u32::MAX,
        ensures
            match old(self)@.create_role_refusal(caller, role_name@) {
                Some(e) => result == Err::<RoleCreated, RbacError>(e) && final(self)@ == old(
                    self,
                )@,
                None => {
                    &&& result matches Ok(record)
                    &&& record@ == (RoleCreatedView {
                        name: role_name@,
                        permissions: permissions@,
                        timestamp: now,
                    })
                    &&& final(self)@ == old(self)@.after_create_role(
                        role_name@,
                        permissions@,
                        now,
                    )
                },
            },
    {
        let state = match self.state {
            Some(state) => state,
            None => {
                return Err(RbacError::KeyNotFound);
            },
        };
        if let Some(e) = check_create_role(&state, &caller, role_name.as_str()) {
            return Err(e);
        }
        if self.roles.contains(role_name.as_str()) {
            return Err(RbacError::KeyConflict);
        }
        let mut ctx = CreateRole { rbac_state: state, role: Role::blank(), admin: caller };
        match create_role(&mut ctx, role_name, permissions, now) {
            Err(e) => Err(e),
            Ok(record) => {
                let CreateRole { rbac_state, role, .. } = ctx;
                match self.roles.insert(role) {
                    Err(e) => Err(e),
                    Ok(()) => {
                        self.state = Some(rbac_state);
                        Ok(record)
                    },
                }
            },
        }
    }

    /// Assigns the role named `role_name` to `user`, on behalf of `caller`.
    /// Any caller may assign. A user who holds an assignment cannot be given
    /// another until the first is revoked.
    pub fn assign_role(&mut self, caller: Identity, user: Identity, role_name: String, now: i64) -> (result:
        Result<RoleAssigned, RbacError>)
        requires
            old(self)@.assign_role_refusal(user, role_name@) is None ==> old(
                self,
            )@.state.unwrap().user_count < u32::MAX,
        ensures
            match old(self)@.assign_role_refusal(user, role_name@) {
                Some(e) => result == Err::<RoleAssigned, RbacError>(e) && final(self)@ == old(
                    self,
                )@,
                None => {
                    &&& result matches Ok(record)
                    &&& record@ == (RoleAssignedView {
                        user,
                        role: role_name@,
                        assigned_by: caller,
                        timestamp: now,
                    })
                    &&& final(self)@ == old(self)@.after_assign_role(
                        caller,
                        user,
                        role_name@,
                        now,
                    )
                },
            },
    {
        let state = match self.state {
            Some(state) => state,
            None => {
                return Err(RbacError::KeyNotFound);
            },
        };
        let role = match self.roles.get(role_name.as_str()) {
            Some(role) => role,
            None => {
                return Err(RbacError::RoleNotFound);
            },
        };
        if self.assignments.contains(&user) {
            return Err(RbacError::KeyConflict);
        }
        let mut ctx = AssignRole {
            rbac_state: state,
            role,
            user_role: UserRole::blank(),
            authority: caller,
        };
        match assign_role(&mut ctx, user, role_name, now) {
            Err(e) => Err(e),
            Ok(record) => {
                let AssignRole { rbac_state, user_role, .. } = ctx;
                match self.assignments.insert(user_role) {
                    Err(e) => Err(e),
                    Ok(()) => {
                        self.state = Some(rbac_state);
                        Ok(record)
                    },
                }
            },
        }
    }

    /// Decides whether the role of `user` grants `permission`. The audit
    /// record carries the decision in `result`; it is made although nothing
    /// in the system changes.
    pub fn check_permission(&self, user: Identity, permission: Permission, now: i64) -> (result:
        Result<PermissionChecked, RbacError>)
        ensures
            result == match self@.permission_decision(user, permission) {
                Ok(granted) => Ok(
                    PermissionChecked { user, permission, result: granted, timestamp: now },
                ),
                Err(e) => Err(e),
            },
    {
        let user_role = match self.assignments.get(&user) {
            Some(user_role) => user_role,
            None => {
                return Err(RbacError::KeyNotFound);
            },
        };
        let role = match self.roles.get(user_role.role.as_str()) {
            Some(role) => role,
            None => {
                return Err(RbacError::RoleNotFound);
            },
        };
        let ctx = CheckPermission { role, user_role };
        check_permission(&ctx, user, permission, now)
    }

    /// Revokes the assignment of `user`, on behalf of `caller`. Any caller
    /// may revoke. Afterwards the user can be given a role again.
    pub fn revoke_role(&mut self, caller: Identity, user: Identity, now: i64) -> (result: Result<
        RoleRevoked,
        RbacError,
    >)
        ensures
            match old(self)@.revoke_role_refusal(user) {
                Some(e) => result == Err::<RoleRevoked, RbacError>(e) && final(self)@ == old(
                    self,
                )@,
                None => result == Ok::<RoleRevoked, RbacError>(
                    RoleRevoked { user, revoked_by: caller, timestamp: now },
                ) && final(self)@ == old(self)@.after_revoke_role(user),
            },
    {
        match self.assignments.remove(&user) {
            None => Err(RbacError::KeyNotFound),
            Some(user_role) => {
                let ctx = RevokeRole { user_role: &user_role, authority: caller };
                Ok(revoke_role(&ctx, user, now))
            },
        }
    }

    /// Authorizes `action` for `caller`: the caller's role must grant the
    /// permission that the action requires.
    pub fn execute_action(&self, caller: Identity, action: Action, now: i64) -> (result: Result<
        ActionExecuted,
        RbacError,
    >)
        ensures
            result == match self@.action_decision(caller, action) {
                Ok(permission) => Ok(
                    ActionExecuted { user: caller, action, permission, timestamp: now },
                ),
                Err(e) => Err(e),
            },
    {
        let user_role = match self.assignments.get(&caller) {
            Some(user_role) => user_role,
            None => {
                return Err(RbacError::KeyNotFound);
            },
        };
        let role = match self.roles.get(user_role.role.as_str()) {
            Some(role) => role,
            None => {
                return Err(RbacError::RoleNotFound);
            },
        };
        let ctx = ExecuteAction { role, user_role, user: caller };
        execute_action(&ctx, action, now)
    }
}

} // verus!
