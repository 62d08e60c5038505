use rbac_system::system::RbacSystem;
use rbac_system::{
    Action, ActionExecuted, Identity, Permission, PermissionChecked, RbacError, RbacInitialized,
    RbacState, Role, RoleAssigned, RoleCreated, RoleRevoked, UserRole,
};

fn id(n: u8) -> Identity {
    Identity::new([n; 32])
}

const ADMIN: u8 = 1;
const U1: u8 = 11;
const U2: u8 = 12;

/// A system that `ADMIN` initialized at time 100.
fn started() -> RbacSystem {
    let mut system = RbacSystem::new();
    assert!(system.initialize(id(ADMIN), 100).is_ok());
    system
}

/// A started system with the role "editor" of Read and Update.
fn with_editor() -> RbacSystem {
    let mut system = started();
    let made = system.create_role(
        id(ADMIN),
        "editor".to_string(),
        vec![Permission::Read, Permission::Update],
        200,
    );
    assert!(made.is_ok());
    system
}

#[test]
fn a_new_system_holds_nothing() {
    let system = RbacSystem::new();
    assert_eq!(system.state, None);
    assert_eq!(system.roles.len(), 0);
    assert_eq!(system.assignments.len(), 0);
}

#[test]
fn initialize_makes_the_caller_administrator() {
    let mut system = RbacSystem::new();
    assert_eq!(
        system.initialize(id(ADMIN), 100),
        Ok(RbacInitialized { admin: id(ADMIN), timestamp: 100 })
    );
    assert_eq!(system.state, Some(RbacState { admin: id(ADMIN), role_count: 1, user_count: 0 }));
    assert_eq!(system.roles.len(), 0);
}

#[test]
fn initialize_happens_once() {
    let mut system = started();
    assert_eq!(system.initialize(id(U1), 101), Err(RbacError::KeyConflict));
    assert_eq!(system.initialize(id(ADMIN), 102), Err(RbacError::KeyConflict));
    assert_eq!(system.state, Some(RbacState { admin: id(ADMIN), role_count: 1, user_count: 0 }));
}

#[test]
fn a_created_role_reads_back() {
    let mut system = started();
    assert_eq!(
        system.create_role(
            id(ADMIN),
            "editor".to_string(),
            vec![Permission::Read, Permission::Update],
            200
        ),
        Ok(RoleCreated {
            name: "editor".to_string(),
            permissions: vec![Permission::Read, Permission::Update],
            timestamp: 200,
        })
    );
    assert_eq!(
        system.roles.get("editor"),
        Some(&Role {
            name: "editor".to_string(),
            permissions: vec![Permission::Read, Permission::Update],
            created_at: 200,
        })
    );
    assert_eq!(system.state.map(|s| s.role_count), Some(2));
}

#[test]
fn a_role_stays_as_it_was_created() {
    let mut system = with_editor();
    let before = system.roles.get("editor").cloned();
    assert!(system.create_role(id(ADMIN), "viewer".to_string(), vec![Permission::Read], 201).is_ok());
    assert!(system.assign_role(id(ADMIN), id(U1), "editor".to_string(), 202).is_ok());
    assert!(system.check_permission(id(U1), Permission::Read, 203).is_ok());
    assert!(system.execute_action(id(U1), Action::ReadResource, 204).is_ok());
    assert!(system.revoke_role(id(ADMIN), id(U1), 205).is_ok());
    assert!(system
        .create_role(id(ADMIN), "editor".to_string(), vec![Permission::Admin], 206)
        .is_err());
    assert_eq!(system.roles.get("editor").cloned(), before);
}

#[test]
fn a_role_is_created_once() {
    let mut system = with_editor();
    assert_eq!(
        system.create_role(id(ADMIN), "editor".to_string(), vec![Permission::Admin], 300),
        Err(RbacError::KeyConflict)
    );
    assert_eq!(system.roles.len(), 1);
    assert_eq!(system.state.map(|s| s.role_count), Some(2));
    assert_eq!(
        system.roles.get("editor").map(|r| r.permissions.clone()),
        Some(vec![Permission::Read, Permission::Update])
    );
}

#[test]
fn create_role_needs_the_state() {
    let mut system = RbacSystem::new();
    assert_eq!(
        system.create_role(id(ADMIN), "editor".to_string(), vec![Permission::Read], 200),
        Err(RbacError::KeyNotFound)
    );
    assert_eq!(system.roles.len(), 0);
}

#[test]
fn create_role_is_for_the_administrator_only() {
    let mut system = started();
    assert_eq!(
        system.create_role(id(U1), "editor".to_string(), vec![Permission::Read], 200),
        Err(RbacError::NotAuthorized)
    );
    assert_eq!(system.roles.len(), 0);
    assert_eq!(system.state.map(|s| s.role_count), Some(1));
}

#[test]
fn a_name_of_thirty_three_characters_is_too_long() {
    let mut system = started();
    assert_eq!(
        system.create_role(id(ADMIN), "n".repeat(33), vec![Permission::Read], 200),
        Err(RbacError::RoleNameTooLong)
    );
    assert_eq!(system.roles.len(), 0);
    assert_eq!(system.state.map(|s| s.role_count), Some(1));
    assert!(system.create_role(id(ADMIN), "n".repeat(32), vec![Permission::Read], 201).is_ok());
    assert!(system.roles.contains(&"n".repeat(32)));
    assert_eq!(system.state.map(|s| s.role_count), Some(2));
}

#[test]
fn the_order_of_refusals_for_create_role() {
    let mut system = with_editor();
    // Not the administrator, whatever else is wrong.
    assert_eq!(
        system.create_role(id(U1), "n".repeat(33), vec![], 300),
        Err(RbacError::NotAuthorized)
    );
    assert_eq!(
        system.create_role(id(U1), "editor".to_string(), vec![], 300),
        Err(RbacError::NotAuthorized)
    );
    // A role with a long name, filed by hand: the length is looked at first.
    let long = "n".repeat(33);
    assert!(system.roles.insert(Role { name: long.clone(), permissions: vec![], created_at: 1 }).is_ok());
    assert_eq!(system.create_role(id(ADMIN), long, vec![], 300), Err(RbacError::RoleNameTooLong));
}

#[test]
fn a_role_may_have_no_permission_or_the_same_one_twice() {
    let mut system = started();
    assert!(system.create_role(id(ADMIN), "none".to_string(), vec![], 200).is_ok());
    assert!(system
        .create_role(id(ADMIN), "twice".to_string(), vec![Permission::Read, Permission::Read], 201)
        .is_ok());
    assert!(system.assign_role(id(ADMIN), id(U1), "none".to_string(), 202).is_ok());
    assert!(system.assign_role(id(ADMIN), id(U2), "twice".to_string(), 203).is_ok());
    assert_eq!(system.check_permission(id(U1), Permission::Read, 204).map(|c| c.result), Ok(false));
    assert_eq!(system.check_permission(id(U2), Permission::Read, 205).map(|c| c.result), Ok(true));
    assert_eq!(
        system.check_permission(id(U2), Permission::Update, 206).map(|c| c.result),
        Ok(false)
    );
}

#[test]
fn an_assigned_role_reads_back() {
    let mut system = with_editor();
    assert_eq!(
        system.assign_role(id(U2), id(U1), "editor".to_string(), 300),
        Ok(RoleAssigned {
            user: id(U1),
            role: "editor".to_string(),
            assigned_by: id(U2),
            timestamp: 300,
        })
    );
    assert_eq!(
        system.assignments.get(&id(U1)),
        Some(&UserRole {
            user: id(U1),
            role: "editor".to_string(),
            assigned_at: 300,
            assigned_by: id(U2),
        })
    );
    assert_eq!(system.state, Some(RbacState { admin: id(ADMIN), role_count: 2, user_count: 1 }));
}

#[test]
fn a_user_is_assigned_once() {
    let mut system = with_editor();
    assert!(system.create_role(id(ADMIN), "viewer".to_string(), vec![Permission::Read], 201).is_ok());
    assert!(system.assign_role(id(ADMIN), id(U1), "editor".to_string(), 300).is_ok());
    assert_eq!(
        system.assign_role(id(ADMIN), id(U1), "editor".to_string(), 301),
        Err(RbacError::KeyConflict)
    );
    assert_eq!(
        system.assign_role(id(ADMIN), id(U1), "viewer".to_string(), 302),
        Err(RbacError::KeyConflict)
    );
    assert_eq!(system.assignments.get(&id(U1)).map(|a| a.role.clone()), Some("editor".to_string()));
    assert_eq!(system.state.map(|s| s.user_count), Some(1));
}

#[test]
fn assign_role_needs_an_existing_role() {
    let mut system = with_editor();
    assert_eq!(
        system.assign_role(id(ADMIN), id(U1), "ghost".to_string(), 300),
        Err(RbacError::RoleNotFound)
    );
    assert!(!system.assignments.contains(&id(U1)));
    assert_eq!(system.state.map(|s| s.user_count), Some(0));
}

#[test]
fn the_order_of_refusals_for_assign_role() {
    let mut system = RbacSystem::new();
    assert_eq!(
        system.assign_role(id(ADMIN), id(U1), "editor".to_string(), 300),
        Err(RbacError::KeyNotFound)
    );
    let mut system = with_editor();
    assert!(system.assign_role(id(ADMIN), id(U1), "editor".to_string(), 300).is_ok());
    // The user is taken and the role is missing: the missing role is named.
    assert_eq!(
        system.assign_role(id(ADMIN), id(U1), "ghost".to_string(), 301),
        Err(RbacError::RoleNotFound)
    );
}

#[test]
fn check_permission_is_membership_in_the_role() {
    let mut system = with_editor();
    assert!(system.assign_role(id(ADMIN), id(U1), "editor".to_string(), 300).is_ok());
    let all = [
        (Permission::Read, true),
        (Permission::Create, false),
        (Permission::Update, true),
        (Permission::Delete, false),
        (Permission::Admin, false),
    ];
    for (permission, granted) in all {
        assert_eq!(
            system.check_permission(id(U1), permission, 400),
            Ok(PermissionChecked { user: id(U1), permission, result: granted, timestamp: 400 })
        );
    }
}

#[test]
fn check_permission_changes_nothing() {
    let mut system = with_editor();
    assert!(system.assign_role(id(ADMIN), id(U1), "editor".to_string(), 300).is_ok());
    let state = system.state;
    assert!(system.check_permission(id(U1), Permission::Read, 400).is_ok());
    assert!(system.check_permission(id(U2), Permission::Read, 401).is_err());
    assert_eq!(system.state, state);
    assert_eq!(system.roles.len(), 1);
    assert_eq!(system.assignments.len(), 1);
}

#[test]
fn check_permission_needs_an_assignment() {
    let system = with_editor();
    assert_eq!(
        system.check_permission(id(U1), Permission::Read, 400),
        Err(RbacError::KeyNotFound)
    );
    let system = RbacSystem::new();
    assert_eq!(
        system.check_permission(id(U1), Permission::Read, 400),
        Err(RbacError::KeyNotFound)
    );
}

#[test]
fn execute_action_goes_by_the_required_permission() {
    let mut system = with_editor();
    assert!(system.assign_role(id(ADMIN), id(U1), "editor".to_string(), 300).is_ok());
    assert_eq!(
        system.execute_action(id(U1), Action::UpdateResource, 500),
        Ok(ActionExecuted {
            user: id(U1),
            action: Action::UpdateResource,
            permission: Permission::Update,
            timestamp: 500,
        })
    );
    assert_eq!(
        system.execute_action(id(U1), Action::DeleteResource, 501),
        Err(RbacError::PermissionDenied)
    );
    assert_eq!(
        system.execute_action(id(U2), Action::ReadResource, 502),
        Err(RbacError::KeyNotFound)
    );
}

#[test]
fn deleting_needs_the_delete_permission() {
    let mut system = started();
    assert!(system
        .create_role(id(ADMIN), "janitor".to_string(), vec![Permission::Delete], 200)
        .is_ok());
    assert!(system
        .create_role(
            id(ADMIN),
            "almost".to_string(),
            vec![Permission::Read, Permission::Create, Permission::Update, Permission::Admin],
            201
        )
        .is_ok());
    assert!(system.assign_role(id(ADMIN), id(U1), "janitor".to_string(), 300).is_ok());
    assert!(system.assign_role(id(ADMIN), id(U2), "almost".to_string(), 301).is_ok());
    assert_eq!(
        system.execute_action(id(U1), Action::DeleteResource, 500),
        Ok(ActionExecuted {
            user: id(U1),
            action: Action::DeleteResource,
            permission: Permission::Delete,
            timestamp: 500,
        })
    );
    assert_eq!(
        system.execute_action(id(U2), Action::DeleteResource, 501),
        Err(RbacError::PermissionDenied)
    );
}

#[test]
fn revoke_role_destroys_the_assignment() {
    let mut system = with_editor();
    assert!(system.assign_role(id(ADMIN), id(U1), "editor".to_string(), 300).is_ok());
    assert_eq!(
        system.revoke_role(id(U2), id(U1), 600),
        Ok(RoleRevoked { user: id(U1), revoked_by: id(U2), timestamp: 600 })
    );
    assert!(!system.assignments.contains(&id(U1)));
    // The counter of users is not lowered.
    assert_eq!(system.state.map(|s| s.user_count), Some(1));
}

#[test]
fn revoke_role_needs_an_assignment() {
    let mut system = with_editor();
    assert_eq!(system.revoke_role(id(ADMIN), id(U1), 600), Err(RbacError::KeyNotFound));
    assert!(system.assign_role(id(ADMIN), id(U1), "editor".to_string(), 300).is_ok());
    assert!(system.revoke_role(id(ADMIN), id(U1), 601).is_ok());
    assert_eq!(system.revoke_role(id(ADMIN), id(U1), 602), Err(RbacError::KeyNotFound));
}

#[test]
fn a_revoked_user_can_be_assigned_again() {
    let mut system = with_editor();
    assert!(system.create_role(id(ADMIN), "viewer".to_string(), vec![Permission::Read], 201).is_ok());
    assert!(system.assign_role(id(ADMIN), id(U1), "editor".to_string(), 300).is_ok());
    assert!(system.revoke_role(id(ADMIN), id(U1), 301).is_ok());
    assert!(system.assign_role(id(U2), id(U1), "viewer".to_string(), 302).is_ok());
    assert_eq!(
        system.assignments.get(&id(U1)),
        Some(&UserRole {
            user: id(U1),
            role: "viewer".to_string(),
            assigned_at: 302,
            assigned_by: id(U2),
        })
    );
    assert_eq!(system.state.map(|s| s.user_count), Some(2));
    assert_eq!(
        system.check_permission(id(U1), Permission::Update, 303).map(|c| c.result),
        Ok(false)
    );
}

#[test]
fn an_assignment_altered_to_a_missing_role_is_refused() {
    let mut system = with_editor();
    assert!(system.assign_role(id(ADMIN), id(U1), "editor".to_string(), 300).is_ok());
    let mut altered = system.assignments.remove(&id(U1)).expect("the assignment exists");
    altered.role = "ghost".to_string();
    assert!(system.assignments.insert(altered).is_ok());
    assert_eq!(
        system.check_permission(id(U1), Permission::Read, 400),
        Err(RbacError::RoleNotFound)
    );
    assert_eq!(
        system.check_permission(id(U1), Permission::Delete, 401),
        Err(RbacError::RoleNotFound)
    );
    assert_eq!(
        system.execute_action(id(U1), Action::ReadResource, 402),
        Err(RbacError::RoleNotFound)
    );
}

#[test]
fn from_initialization_to_revocation() {
    let mut system = RbacSystem::new();
    assert!(system.initialize(id(ADMIN), 1).is_ok());
    assert!(system
        .create_role(
            id(ADMIN),
            "moderator".to_string(),
            vec![Permission::Read, Permission::Update],
            2
        )
        .is_ok());
    assert!(system.assign_role(id(ADMIN), id(U1), "moderator".to_string(), 3).is_ok());
    assert_eq!(system.check_permission(id(U1), Permission::Update, 4).map(|c| c.result), Ok(true));
    assert_eq!(system.check_permission(id(U1), Permission::Delete, 5).map(|c| c.result), Ok(false));
    assert_eq!(
        system.execute_action(id(U1), Action::DeleteResource, 6),
        Err(RbacError::PermissionDenied)
    );
    assert!(system.revoke_role(id(ADMIN), id(U1), 7).is_ok());
    for permission in [
        Permission::Read,
        Permission::Create,
        Permission::Update,
        Permission::Delete,
        Permission::Admin,
    ] {
        assert_eq!(
            system.check_permission(id(U1), permission, 8),
            Err(RbacError::KeyNotFound)
        );
    }
}
