//! The persisted records: the authorization state, roles and assignments.

use vstd::prelude::*;
use vstd::utf8::encode_utf8;

use crate::catalog::{grants, Permission};
use crate::identity::Identity;

verus! {

broadcast use vstd::slice::group_slice_axioms;

/// The longest name, in bytes of its UTF-8 encoding, that a role may have.
pub const MAX_ROLE_NAME_LEN: usize = 32;

/// The length of a name: the number of bytes in its UTF-8 encoding.
pub open spec fn name_len(name: Seq<char>) -> nat {
    encode_utf8(name).len()
}

/// Whether a name is short enough to name a role.
pub open spec fn name_fits(name: Seq<char>) -> bool {
    name_len(name) <= MAX_ROLE_NAME_LEN
}

/// Measures a name against the limit for role names.
pub fn check_name_fits(name: &str) -> (fits: bool)
    ensures
        fits == name_fits(name@),
{
    name.as_bytes().len() <= MAX_ROLE_NAME_LEN
}

/// The singleton that holds the administrator and the two running counters.
///
/// The counters only count what was created. They are not indexes: nothing
/// may rely on them to enumerate roles or assignments.
#[derive(Clone, Copy, Debug, PartialEq, Eq)]
pub struct RbacState {
    /// The administrator, fixed when the state is created.
    pub admin: Identity,
    /// How many roles were created, plus the seed of one that initialization
    /// leaves without a role record of its own.
    pub role_count: u32,
    /// How many assignments were created. Revoking an assignment does not
    /// lower it.
    pub user_count: u32,
}

impl RbacState {
    /// Whether this is the blank state: the zero identity and both counters
    /// at zero.
    pub open spec fn is_blank(self) -> bool {
        self.admin.is_zero() && self.role_count == 0 && self.user_count == 0
    }
}

impl Default for RbacState {
    /// The blank state, as it stands before initialization fills it.
    fn default() -> (state: RbacState)
        ensures
            state.is_blank(),
    {
        RbacState { admin: Identity::default(), role_count: 0, user_count: 0 }
    }
}

/// What a role is, mathematically.
pub struct RoleView {
    pub name: Seq<char>,
    pub permissions: Seq<Permission>,
    pub created_at: i64,
}

impl RoleView {
    /// The blank role: no name, no permissions, created at zero.
    pub open spec fn blank() -> RoleView {
        RoleView { name: Seq::empty(), permissions: Seq::empty(), created_at: 0 }
    }

    /// Whether the role grants `permission`.
    pub open spec fn grants(self, permission: Permission) -> bool {
        self.permissions.contains(permission)
    }
}

/// A named set of permissions. A role is fixed once it is created: no
/// operation edits or deletes one.
#[derive(Debug, PartialEq, Eq)]
pub struct Role {
    /// The name, which is the role's key.
    pub name: String,
    /// The permissions that the role grants. A permission may occur more
    /// than once; only membership counts.
    pub permissions: Vec<Permission>,
    /// When the role was created.
    pub created_at: i64,
}

impl View for Role {
    type V = RoleView;

    open spec fn view(&self) -> RoleView {
        RoleView {
            name: self.name@,
            permissions: self.permissions@,
            created_at: self.created_at,
        }
    }
}

impl Clone for Role {
    /// A copy with the same name, permissions and time of creation.
    fn clone(&self) -> (copy: Role)
        ensures
            copy@ == self@,
    {
        Role {
            name: self.name.clone(),
            permissions: self.permissions.clone(),
            created_at: self.created_at,
        }
    }
}

impl Role {
    /// A blank role record, to be filled when a role is created.
    pub fn blank() -> (role: Role)
        ensures
            role@ == RoleView::blank(),
    {
        Role { name: String::new(), permissions: Vec::new(), created_at: 0 }
    }

    /// Whether this role grants `permission`.
    pub fn grants(&self, permission: Permission) -> (granted: bool)
        ensures
            granted == self@.grants(permission),
    {
        grants(&self.permissions, permission)
    }
}

/// What an assignment is, mathematically.
pub struct UserRoleView {
    pub user: Identity,
    pub role: Seq<char>,
    pub assigned_at: i64,
    pub assigned_by: Identity,
}

impl UserRoleView {
    /// Whether this is the blank assignment: zero identities, no role name,
    /// assigned at zero.
    pub open spec fn is_blank(self) -> bool {
        &&& self.user.is_zero()
        &&& self.role == Seq::<char>::empty()
        &&& self.assigned_at == 0
        &&& self.assigned_by.is_zero()
    }
}

/// The binding of one role to one user. The role is held by name, not by
/// reference, so every use checks it against the role record again.
#[derive(Debug, PartialEq, Eq)]
pub struct UserRole {
    /// The user, which is the assignment's key.
    pub user: Identity,
    /// The name of the assigned role.
    pub role: String,
    /// When the role was assigned.
    pub assigned_at: i64,
    /// Who assigned it.
    pub assigned_by: Identity,
}

impl View for UserRole {
    type V = UserRoleView;

    open spec fn view(&self) -> UserRoleView {
        UserRoleView {
            user: self.user,
            role: self.role@,
            assigned_at: self.assigned_at,
            assigned_by: self.assigned_by,
        }
    }
}

impl Clone for UserRole {
    /// A copy with the same user, role name, time and assigner.
    fn clone(&self) -> (copy: UserRole)
        ensures
            copy@ == self@,
    {
        UserRole {
            user: self.user,
            role: self.role.clone(),
            assigned_at: self.assigned_at,
            assigned_by: self.assigned_by,
        }
    }
}

impl UserRole {
    /// A blank assignment record, to be filled when a role is assigned.
    pub fn blank() -> (user_role: UserRole)
        ensures
            user_role@.is_blank(),
    {
        UserRole {
            user: Identity::default(),
            role: String::new(),
            assigned_at: 0,
            assigned_by: Identity::default(),
        }
    }
}

} // verus!
