//! The project model: dependency specifications, packages, projects,
//! workspaces, libraries and directories, with their validation rules.

pub mod dep_map;
pub mod dependency;
pub mod directory;
pub mod library;
pub mod project;
pub mod workspace;

pub use dep_map::DependencyMap;
pub use dependency::{is_valid_version, DependencyDetail, DependencyDetailDto, DependencyDto, DependencySpec};
pub use directory::Directory;
pub use library::{Library, LibraryDto, LibraryType, LibraryTypeDto};
pub use project::{
    default_backend, default_scala_version, default_source_dir, default_target_dir, default_test_dir, Package,
    PackageDto, Project, ProjectDto,
};
pub use workspace::{Workspace, WorkspaceDto};
