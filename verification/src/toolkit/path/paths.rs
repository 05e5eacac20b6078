//! Where the templates are, relative to a templates directory.

use crate::toolkit::os::path_join;
use crate::toolkit::path::manager::PathManager;
use vstd::prelude::*;

verus! {

/// The relative location, from an ancestor of the executable's directory, at
/// which the templates directory is looked for.
pub open spec fn templates_offset() -> Seq<char> {
    "../../crates/sinter-core/templates"@
}

/// The templates directory candidate under the ancestor `current`.
pub fn templates_candidate(current: &PathManager) -> (r: PathManager)
    ensures
        r@ == path_join(current@, templates_offset()),
{
    current.join("../../crates/sinter-core/templates")
}

/// The fallback templates directory, used when no candidate exists.
pub fn templates_fallback() -> (r: PathManager)
    ensures
        r@ == "templates"@,
{
    PathManager::new("templates")
}

/// The template file `name` in the templates directory.
pub fn template_file(templates_dir: &PathManager, name: &str) -> (r: PathManager)
    ensures
        r@ == path_join(templates_dir@, name@),
{
    templates_dir.join(name)
}

/// The project manifest template.
pub fn project_template(templates_dir: &PathManager) -> (r: PathManager)
    ensures
        r@ == path_join(templates_dir@, "project.toml.template"@),
{
    template_file(templates_dir, "project.toml.template")
}

/// The main source file template.
pub fn main_template(templates_dir: &PathManager) -> (r: PathManager)
    ensures
        r@ == path_join(templates_dir@, "main.scala.template"@),
{
    template_file(templates_dir, "main.scala.template")
}

/// The workspace manifest template.
pub fn workspace_template(templates_dir: &PathManager) -> (r: PathManager)
    ensures
        r@ == path_join(templates_dir@, "workspace.project.toml.template"@),
{
    template_file(templates_dir, "workspace.project.toml.template")
}

/// The BSP templates, in order.
pub fn bsp_templates(templates_dir: &PathManager) -> (r: Vec<PathManager>)
    ensures
        r@.len() == 3,
        r@[0]@ == path_join(templates_dir@, ".classpath.template"@),
        r@[1]@ == path_join(templates_dir@, ".scala-build.template"@),
        r@[2]@ == path_join(templates_dir@, "ide-options-v2.json.template"@),
{
    let mut v: Vec<PathManager> = Vec::new();
    v.push(template_file(templates_dir, ".classpath.template"));
    v.push(template_file(templates_dir, ".scala-build.template"));
    v.push(template_file(templates_dir, "ide-options-v2.json.template"));
    v
}

/// The plugin templates directory under the manifest directory.
pub fn plugin_templates_dir(manifest_dir: &PathManager) -> (r: PathManager)
    ensures
        r@ == path_join(manifest_dir@, "../sinter-plugins/templates"@),
{
    manifest_dir.join("../sinter-plugins/templates")
}

/// The plugin template file `name`.
pub fn plugin_template_file(manifest_dir: &PathManager, name: &str) -> (r: PathManager)
    ensures
        r@ == path_join(path_join(manifest_dir@, "../sinter-plugins/templates"@), name@),
{
    plugin_templates_dir(manifest_dir).join(name)
}

} // verus!
