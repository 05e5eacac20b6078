//! The JSP plugin: the `jsp` command, which lays out a new Maven web project.

use crate::text::{concat, concat3, replace_seq, replace_str};
use crate::toolkit::os::{path_join, PathWrapper};
use vstd::prelude::*;

verus! {

/// The plugin that generates JSP projects.
#[derive(Debug, Clone, Copy)]
pub struct JspPlugin;

/// The directories of a JSP project, under its directory.
pub open spec fn jsp_dirs(proj: Seq<char>) -> Seq<Seq<char>> {
    seq![
        path_join(proj, "src/main/webapp/WEB-INF"@),
        path_join(proj, "src/main/java"@),
        path_join(proj, "src/main/resources"@),
    ]
}

impl JspPlugin {
    /// The command's name: `jsp`.
    pub fn name(&self) -> (r: &'static str)
        ensures
            r@ == "jsp"@,
    {
        "jsp"
    }

    /// The command's description.
    pub fn about(&self) -> (r: &'static str)
        ensures
            r@ == "Generate a new JSP project"@,
    {
        "Generate a new JSP project"
    }

    /// The new project's directory: the name under the working directory.
    pub fn project_dir(&self, cwd: &PathWrapper, name: &str) -> (r: PathWrapper)
        ensures
            r@ == path_join(cwd@, name@),
    {
        cwd.join(name)
    }

    /// The directories created for a project, in order.
    pub fn dirs(&self, proj_dir: &PathWrapper) -> (r: Vec<PathWrapper>)
        ensures
            r@.len() == 3,
            forall|i: int| 0 <= i < 3 ==> (#[trigger] r@[i])@ == jsp_dirs(proj_dir@)[i],
    {
        let mut out: Vec<PathWrapper> = Vec::new();
        out.push(proj_dir.join("src/main/webapp/WEB-INF"));
        out.push(proj_dir.join("src/main/java"));
        out.push(proj_dir.join("src/main/resources"));
        out
    }

    /// The Maven manifest: the template with every `{{name}}` replaced by the name.
    pub fn pom_xml(&self, template: &str, name: &str) -> (r: String)
        ensures
            r@ == replace_seq(template@, "{{name}}"@, name@),
    {
        proof {
            reveal_strlit("{{name}}");
        }
        replace_str(template, "{{name}}", name)
    }

    /// The files written for a project, with their contents: the Maven
    /// manifest, the deployment descriptor and the index page.
    pub fn files(
        &self,
        proj_dir: &PathWrapper,
        name: &str,
        pom_template: &str,
        web_xml: &str,
        index_jsp: &str,
    ) -> (r: Vec<(PathWrapper, String)>)
        ensures
            r@.len() == 3,
            r@[0].0@ == path_join(proj_dir@, "pom.xml"@),
            r@[0].1@ == replace_seq(pom_template@, "{{name}}"@, name@),
            r@[1].0@ == path_join(proj_dir@, "src/main/webapp/WEB-INF/web.xml"@),
            r@[1].1@ == web_xml@,
            r@[2].0@ == path_join(proj_dir@, "src/main/webapp/index.jsp"@),
            r@[2].1@ == index_jsp@,
    {
        let mut out: Vec<(PathWrapper, String)> = Vec::new();
        out.push((proj_dir.join("pom.xml"), self.pom_xml(pom_template, name)));
        out.push((proj_dir.join("src/main/webapp/WEB-INF/web.xml"), web_xml.to_owned()));
        out.push((proj_dir.join("src/main/webapp/index.jsp"), index_jsp.to_owned()));
        out
    }

    /// The notice for a project that already exists.
    pub fn exists_message(&self, name: &str) -> (r: String)
        ensures
            r@ == "JSP project '"@ + name@ + "' already exists"@,
    {
        concat3("JSP project '", name, "' already exists")
    }

    /// The lines printed once a project is created.
    pub fn created_lines(&self, name: &str) -> (r: Vec<String>)
        ensures
            r@.len() == 4,
            r@[0]@ == "Created JSP project '"@ + name@ + "'"@,
            r@[1]@ == "To build and run:"@,
            r@[2]@ == "  cd "@ + name@,
            r@[3]@ == "  mvn clean package"@,
    {
        let mut out: Vec<String> = Vec::new();
        out.push(concat3("Created JSP project '", name, "'"));
        out.push("To build and run:".to_owned());
        out.push(concat("  cd ", name));
        out.push("  mvn clean package".to_owned());
        out
    }
}

/// The JSP plugin.
pub fn jsp_plugin() -> (r: JspPlugin)
    ensures
        r == JspPlugin,
{
    JspPlugin
}

} // verus!
