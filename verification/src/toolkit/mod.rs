//! Tools: the path type and its algebra, path management, and text templates.

pub mod os;
pub mod path;
pub mod file;
pub mod template;
pub mod http;
pub mod json;
