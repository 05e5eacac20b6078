//! Workspace management: the workspace and member managers.

pub mod manager;
pub mod member;

pub use manager::WorkspaceManager;
pub use member::MemberManager;
