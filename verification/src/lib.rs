//! Role-based access control: named, immutable sets of permissions, at most one
//! role per identity, and the decision whether an identity may perform an action.

pub mod assignment_store;
pub mod catalog;
pub mod context;
pub mod error;
pub mod events;
pub mod identity;
pub mod laws;
pub mod operations;
pub mod records;
pub mod role_store;
pub mod system;
pub mod text;

pub use assignment_store::AssignmentStore;
pub use catalog::{grants, required_permission, Action, Permission};
pub use context::{AssignRole, CheckPermission, CreateRole, ExecuteAction, Initialize, RevokeRole};
pub use error::RbacError;
pub use events::{
    ActionExecuted, PermissionChecked, RbacInitialized, RoleAssigned, RoleCreated, RoleRevoked,
};
pub use identity::Identity;
pub use operations::{
    assign_role, check_permission, create_role, execute_action, initialize, revoke_role,
};
pub use records::{RbacState, Role, UserRole, MAX_ROLE_NAME_LEN};
pub use role_store::RoleStore;
pub use system::RbacSystem;
