//! Plugins that add commands to the tool.

pub mod jsp;

pub use jsp::{jsp_plugin, JspPlugin};
