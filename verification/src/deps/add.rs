//! `sinter add`: parsing a dependency argument and deciding what to record.

use crate::config::manifest::ManifestEdit;
use crate::deps::{direct_deps, entry_dep, toml_key_dep, DepView, Dependency};
use crate::models::dependency::DependencySpec;
use crate::text::{
    concat, concat3, contains_seq, contains_str, eq_str, lacks, lemma_no_double_colon,
    lemma_no_occurrence, lemma_occurs_shift, lemma_split_once, lemma_split_whole, occurs_at,
    split_seq, split_str, starts_with_seq, starts_with_str, substring,
};
use vstd::prelude::*;

verus! {

/// Why a dependency argument was refused.
#[derive(Debug, Clone, Copy, PartialEq, Eq, Structural)]
pub enum DepSpecError {
    /// Not `group::artifact:version` nor `group:artifact:version`.
    InvalidFormat,
    /// The artifact part holds `::`.
    ArtifactHasDoubleColon,
    /// The version is empty or `latest`.
    VersionRequired,
}

impl DepSpecError {
    /// The message shown for the error.
    pub fn message(&self) -> (r: String)
        ensures
            r@ == match *self {
                DepSpecError::InvalidFormat => "依赖格式无效，请使用完整格式：group::artifact:version"@,
                DepSpecError::ArtifactHasDoubleColon => "依赖格式无效，artifact 不应包含 '::'"@,
                DepSpecError::VersionRequired => "必须明确指定版本，不允许使用 'latest'"@,
            },
    {
        match self {
            DepSpecError::InvalidFormat => "依赖格式无效，请使用完整格式：group::artifact:version".to_owned(),
            DepSpecError::ArtifactHasDoubleColon => "依赖格式无效，artifact 不应包含 '::'".to_owned(),
            DepSpecError::VersionRequired => "必须明确指定版本，不允许使用 'latest'".to_owned(),
        }
    }
}

/// The outcome of parsing a dependency argument: the artifact key (`group::artifact`
/// or `group:artifact`), the Scala version (empty for a Java dependency), and the version.
pub open spec fn parse_dep_spec_result(spec: Seq<char>, default_scala_version: Seq<char>) -> Result<
    (Seq<char>, Seq<char>, Seq<char>),
    DepSpecError,
> {
    if contains_seq(spec, "::"@) {
        let parts = split_seq(spec, "::"@);
        if parts.len() != 2 {
            Err(DepSpecError::InvalidFormat)
        } else {
            let av = split_seq(parts[1], ":"@);
            if av.len() != 2 {
                Err(DepSpecError::InvalidFormat)
            } else {
                let artifact_with_scala = av[0];
                let version = av[1];
                if contains_seq(artifact_with_scala, "::"@) {
                    Err(DepSpecError::ArtifactHasDoubleColon)
                } else {
                    let ap = split_seq(artifact_with_scala, "@"@);
                    let artifact = if ap.len() == 2 {
                        ap[0]
                    } else {
                        artifact_with_scala
                    };
                    let scala_version = if ap.len() == 2 {
                        ap[1]
                    } else {
                        default_scala_version
                    };
                    if version.len() == 0 || version == "latest"@ {
                        Err(DepSpecError::VersionRequired)
                    } else {
                        Ok((parts[0] + "::"@ + artifact, scala_version, version))
                    }
                }
            }
        }
    } else {
        let parts = split_seq(spec, ":"@);
        if parts.len() != 3 {
            Err(DepSpecError::InvalidFormat)
        } else if parts[2].len() == 0 || parts[2] == "latest"@ {
            Err(DepSpecError::VersionRequired)
        } else {
            Ok((parts[0] + ":"@ + parts[1], seq![], parts[2]))
        }
    }
}

/// Parses `group::artifact[@scala]:version` or `group:artifact:version`.
pub fn parse_dep_spec(spec: &str, default_scala_version: &str) -> (r: Result<
    (String, String, String),
    DepSpecError,
>)
    ensures
        match r {
            Ok((a, s, v)) => parse_dep_spec_result(spec@, default_scala_version@) == Ok::<
                (Seq<char>, Seq<char>, Seq<char>),
                DepSpecError,
            >((a@, s@, v@)),
            Err(e) => parse_dep_spec_result(spec@, default_scala_version@) == Err::<
                (Seq<char>, Seq<char>, Seq<char>),
                DepSpecError,
            >(e),
        },
{
    proof {
        reveal_strlit("::");
        reveal_strlit(":");
        reveal_strlit("@");
    }
    if contains_str(spec, "::") {
        let parts = split_str(spec, "::");
        if parts.len() != 2 {
            return Err(DepSpecError::InvalidFormat);
        }
        let av = split_str(parts[1].as_str(), ":");
        if av.len() != 2 {
            return Err(DepSpecError::InvalidFormat);
        }
        let artifact_with_scala = av[0].as_str();
        let version = av[1].as_str();
        if contains_str(artifact_with_scala, "::") {
            return Err(DepSpecError::ArtifactHasDoubleColon);
        }
        let ap = split_str(artifact_with_scala, "@");
        let (artifact, scala_version) = if ap.len() == 2 {
            (ap[0].clone(), ap[1].clone())
        } else {
            (artifact_with_scala.to_owned(), default_scala_version.to_owned())
        };
        let full_artifact = concat3(parts[0].as_str(), "::", artifact.as_str());
        if version.unicode_len() == 0 || eq_str(version, "latest") {
            return Err(DepSpecError::VersionRequired);
        }
        Ok((full_artifact, scala_version, version.to_owned()))
    } else {
        let parts = split_str(spec, ":");
        if parts.len() != 3 {
            return Err(DepSpecError::InvalidFormat);
        }
        if parts[2].unicode_len() == 0 || eq_str(parts[2].as_str(), "latest") {
            return Err(DepSpecError::VersionRequired);
        }
        let key = concat3(parts[0].as_str(), ":", parts[1].as_str());
        Ok((key, String::new(), parts[2].clone()))
    }
}

/// Which table of the manifest a dependency goes into.
#[derive(Debug, Clone, Copy, PartialEq, Eq, Structural)]
pub enum ManifestSection {
    /// `[dependencies]`.
    Dependencies,
    /// `[workspace.dependencies]`.
    WorkspaceDependencies,
}

/// What must hold before a dependency is recorded.
#[derive(Debug, Clone)]
pub enum AddCheck {
    /// The sbt project at this path (relative to the project directory) must exist.
    SbtPathExists(String),
    /// scala-cli must be able to fetch this dependency.
    ValidateMaven(Dependency),
}

/// The decision `sinter add` takes for one argument.
#[derive(Debug, Clone)]
pub struct AddPlan {
    /// The manifest key to write.
    pub key: String,
    /// The version to write under it (empty for an sbt project).
    pub version: String,
    /// The table to write into.
    pub section: ManifestSection,
    /// The check to pass first.
    pub check: AddCheck,
}

impl AddPlan {
    /// The edit that records the planned dependency in the manifest: in
    /// `[workspace.dependencies]` for a workspace root, else in
    /// `[dependencies]`.
    pub fn manifest_edit(&self) -> (r: ManifestEdit)
        ensures
            match self.section {
                ManifestSection::Dependencies => r matches ManifestEdit::Dependency { key, version } && key@
                    == self.key@ && version@ == self.version@,
                ManifestSection::WorkspaceDependencies => r matches ManifestEdit::WorkspaceDependency {
                    key,
                    version,
                } && key@ == self.key@ && version@ == self.version@,
            },
    {
        match self.section {
            ManifestSection::Dependencies => ManifestEdit::Dependency {
                key: self.key.clone(),
                version: self.version.clone(),
            },
            ManifestSection::WorkspaceDependencies => ManifestEdit::WorkspaceDependency {
                key: self.key.clone(),
                version: self.version.clone(),
            },
        }
    }
}

/// An argument naming an sbt project: `sbt:<path>`, or a path with `/` and no `::`.
pub open spec fn is_sbt_arg(a: Seq<char>) -> bool {
    starts_with_seq(a, "sbt:"@) || (contains_seq(a, "/"@) && !contains_seq(a, "::"@))
}

/// The manifest key of a parsed Maven argument: a Java key as it is; a Scala
/// key with `_<scala version>` appended unless that version is empty or `latest`.
pub open spec fn full_key(artifact: Seq<char>, scala_version: Seq<char>) -> Seq<char> {
    if contains_seq(artifact, ":"@) && !contains_seq(artifact, "::"@) {
        artifact
    } else if scala_version.len() != 0 && scala_version != "latest"@ {
        artifact + "_"@ + scala_version
    } else {
        artifact
    }
}

/// The section for a project that is (or is not) a workspace root.
pub open spec fn section_for(is_workspace_root: bool) -> ManifestSection {
    if is_workspace_root {
        ManifestSection::WorkspaceDependencies
    } else {
        ManifestSection::Dependencies
    }
}

/// The plan `plan_add_dependency` produces, as key, version and check.
pub open spec fn add_plan_ok(
    plan: AddPlan,
    arg: Seq<char>,
    scala_version: Seq<char>,
    is_workspace_root: bool,
) -> bool {
    &&& plan.section == section_for(is_workspace_root)
    &&& if is_sbt_arg(arg) {
        let path = if starts_with_seq(arg, "sbt:"@) {
            arg.subrange(4, arg.len() as int)
        } else {
            arg
        };
        &&& plan.key@ == "sbt:"@ + path
        &&& plan.version@ == Seq::<char>::empty()
        &&& plan.check matches AddCheck::SbtPathExists(p) && p@ == path
    } else {
        match parse_dep_spec_result(arg, scala_version) {
            Ok((artifact, sv, version)) => {
                &&& plan.key@ == full_key(artifact, sv)
                &&& plan.version@ == version
                &&& plan.check matches AddCheck::ValidateMaven(d) && d.view() == toml_key_dep(
                    full_key(artifact, sv),
                    version,
                )
            },
            Err(_) => false,
        }
    }
}

/// Decides what `sinter add <arg>` records in a project whose Scala version is
/// `scala_version`; a workspace root records into the workspace table.
pub fn plan_add_dependency(arg: &str, scala_version: &str, is_workspace_root: bool) -> (r: Result<
    AddPlan,
    DepSpecError,
>)
    ensures
        match r {
            Ok(plan) => add_plan_ok(plan, arg@, scala_version@, is_workspace_root),
            Err(e) => !is_sbt_arg(arg@) && parse_dep_spec_result(arg@, scala_version@) == Err::<
                (Seq<char>, Seq<char>, Seq<char>),
                DepSpecError,
            >(e),
        },
{
    proof {
        reveal_strlit("sbt:");
        reveal_strlit(":");
    }
    let section = if is_workspace_root {
        ManifestSection::WorkspaceDependencies
    } else {
        ManifestSection::Dependencies
    };
    if starts_with_str(arg, "sbt:") || (contains_str(arg, "/") && !contains_str(arg, "::")) {
        let path = if starts_with_str(arg, "sbt:") {
            substring(arg, 4, arg.unicode_len())
        } else {
            arg.to_owned()
        };
        let key = concat("sbt:", path.as_str());
        return Ok(
            AddPlan { key, version: String::new(), section, check: AddCheck::SbtPathExists(path) },
        );
    }
    let (artifact, sv, version) = parse_dep_spec(arg, scala_version)?;
    let key = if contains_str(artifact.as_str(), ":") && !contains_str(artifact.as_str(), "::") {
        artifact
    } else if sv.as_str().unicode_len() != 0 && !eq_str(sv.as_str(), "latest") {
        concat3(artifact.as_str(), "_", sv.as_str())
    } else {
        artifact
    };
    let dep = Dependency::from_toml_key(key.as_str(), version.as_str());
    Ok(AddPlan { key, version, section, check: AddCheck::ValidateMaven(dep) })
}

/// What a plan's check is about, as the dependency it names: the validated
/// repository dependency, or the sbt project whose path must exist.
pub open spec fn checked_dep(check: AddCheck) -> DepView {
    match check {
        AddCheck::SbtPathExists(p) => DepView::Sbt { path: p@ },
        AddCheck::ValidateMaven(d) => d.view(),
    }
}

/// What `sinter add` records reads back as what it checked: once the plan's
/// key is recorded with its version after any existing entries, the direct
/// dependencies of the manifest are the earlier ones followed by exactly the
/// dependency the plan validated (or the sbt project it checked).
pub proof fn law_added_dependency_reads_back(
    plan: AddPlan,
    arg: Seq<char>,
    scala_version: Seq<char>,
    is_workspace_root: bool,
    entries: Seq<(String, DependencySpec)>,
    name: String,
    version: String,
)
    requires
        add_plan_ok(plan, arg, scala_version, is_workspace_root),
        name@ == plan.key@,
        version@ == plan.version@,
    ensures
        direct_deps(entries.push((name, DependencySpec::Simple(version)))) == direct_deps(
            entries,
        ).push(checked_dep(plan.check)),
{
    let e = (name, DependencySpec::Simple(version));
    assert(entries.push(e).drop_last() =~= entries);
    if is_sbt_arg(arg) {
        reveal_strlit("sbt:");
        let path = if starts_with_seq(arg, "sbt:"@) {
            arg.subrange(4, arg.len() as int)
        } else {
            arg
        };
        let k = "sbt:"@ + path;
        assert(k.subrange(0, 4) =~= "sbt:"@);
        assert(starts_with_seq(k, "sbt:"@));
        assert(k.subrange(4, k.len() as int) =~= path);
    }
    assert(entry_dep(name@, DependencySpec::Simple(version)) =~= seq![checked_dep(plan.check)]);
}

/// A dependency argument, in the Scala or the Java form, is never accepted
/// with an empty or `latest` version: versions are explicit.
pub proof fn law_version_is_explicit(spec: Seq<char>, default_scala_version: Seq<char>)
    ensures
        parse_dep_spec_result(spec, default_scala_version) matches Ok((_, _, v)) ==> v.len() > 0
            && v != "latest"@,
{
}

/// How `group::artifact@scala:version` splits, its parts holding no `:` or `@`.
#[verifier::rlimit(40)]
proof fn lemma_explicit_pieces(g: Seq<char>, art: Seq<char>, sc: Seq<char>, ver: Seq<char>)
    requires
        lacks(g, ':'),
        lacks(art, ':'),
        lacks(art, '@'),
        lacks(sc, ':'),
        lacks(sc, '@'),
        lacks(ver, ':'),
    ensures
        contains_seq(g + "::"@ + (art + "@"@ + sc + ":"@ + ver), "::"@),
        split_seq(g + "::"@ + (art + "@"@ + sc + ":"@ + ver), "::"@) == seq![g, art + "@"@ + sc + ":"@ + ver],
        split_seq(art + "@"@ + sc + ":"@ + ver, ":"@) == seq![art + "@"@ + sc, ver],
        !contains_seq(art + "@"@ + sc, "::"@),
        split_seq(art + "@"@ + sc, "@"@) == seq![art, sc],
{
    reveal_strlit("::");
    reveal_strlit(":");
    reveal_strlit("@");
    let dc = seq![':', ':'];
    let colon = seq![':'];
    let at = seq!['@'];
    assert("::"@ =~= dc);
    assert(":"@ =~= colon);
    assert("@"@ =~= at);
    let left = art + at + sc;
    assert(lacks(left, ':')) by {
        assert forall|i: int| 0 <= i < left.len() implies left[i] != ':' by {
            if i < art.len() {
                assert(left[i] == art[i]);
            } else if i > art.len() {
                assert(left[i] == sc[i - art.len() - 1]);
            }
        }
    }
    let rest = left + colon + ver;
    let arg = g + dc + rest;
    lemma_no_double_colon(left, ver);
    lemma_no_occurrence(arg, dc, 0, g.len() as int);
    assert forall|k: int| g.len() + dc.len() <= k implies !occurs_at(arg, dc, k) by {
        lemma_occurs_shift(g + dc, rest, dc, k - g.len() - 2);
    }
    lemma_split_once(g, dc, rest);
    lemma_no_occurrence(rest, colon, 0, left.len() as int);
    assert forall|k: int| left.len() + colon.len() <= k implies !occurs_at(rest, colon, k) by {
        lemma_no_occurrence(ver, colon, 0, ver.len() as int);
        lemma_occurs_shift(left + colon, ver, colon, k - left.len() - 1);
    }
    lemma_split_once(left, colon, ver);
    lemma_no_occurrence(left, dc, 0, left.len() as int);
    assert(!contains_seq(left, dc));
    lemma_no_occurrence(left, at, 0, art.len() as int);
    assert forall|k: int| art.len() + at.len() <= k implies !occurs_at(left, at, k) by {
        lemma_no_occurrence(sc, at, 0, sc.len() as int);
        lemma_occurs_shift(art + at, sc, at, k - art.len() - 1);
    }
    lemma_split_once(art, at, sc);
}

/// The Scala-form argument `group::artifact@scala:version`, its parts holding
/// no `:` or `@`, reads as the key `group::artifact`, the Scala version written
/// after `@`, and the version.
proof fn lemma_parse_explicit_scala(
    g: Seq<char>,
    art: Seq<char>,
    sc: Seq<char>,
    ver: Seq<char>,
    d: Seq<char>,
)
    requires
        lacks(g, ':'),
        lacks(art, ':'),
        lacks(art, '@'),
        lacks(sc, ':'),
        lacks(sc, '@'),
        lacks(ver, ':'),
        ver.len() > 0,
        ver != "latest"@,
    ensures
        parse_dep_spec_result(g + "::"@ + (art + "@"@ + sc + ":"@ + ver), d) == Ok::<
            (Seq<char>, Seq<char>, Seq<char>),
            DepSpecError,
        >((g + "::"@ + art, sc, ver)),
        contains_seq(g + "::"@ + (art + "@"@ + sc + ":"@ + ver), "::"@),
{
    lemma_explicit_pieces(g, art, sc, ver);
}

/// How `group::artifact:version` splits, its parts holding no `:` or `@`.
#[verifier::rlimit(40)]
proof fn lemma_default_pieces(g: Seq<char>, art: Seq<char>, ver: Seq<char>)
    requires
        lacks(g, ':'),
        lacks(art, ':'),
        lacks(art, '@'),
        lacks(ver, ':'),
    ensures
        contains_seq(g + "::"@ + (art + ":"@ + ver), "::"@),
        split_seq(g + "::"@ + (art + ":"@ + ver), "::"@) == seq![g, art + ":"@ + ver],
        split_seq(art + ":"@ + ver, ":"@) == seq![art, ver],
        !contains_seq(art, "::"@),
        split_seq(art, "@"@) == seq![art],
{
    reveal_strlit("::");
    reveal_strlit(":");
    reveal_strlit("@");
    let dc = seq![':', ':'];
    let colon = seq![':'];
    let at = seq!['@'];
    assert("::"@ =~= dc);
    assert(":"@ =~= colon);
    assert("@"@ =~= at);
    let rest = art + colon + ver;
    let arg = g + dc + rest;
    lemma_no_double_colon(art, ver);
    lemma_no_occurrence(arg, dc, 0, g.len() as int);
    assert forall|k: int| g.len() + dc.len() <= k implies !occurs_at(arg, dc, k) by {
        lemma_occurs_shift(g + dc, rest, dc, k - g.len() - 2);
    }
    lemma_split_once(g, dc, rest);
    lemma_no_occurrence(rest, colon, 0, art.len() as int);
    assert forall|k: int| art.len() + colon.len() <= k implies !occurs_at(rest, colon, k) by {
        lemma_no_occurrence(ver, colon, 0, ver.len() as int);
        lemma_occurs_shift(art + colon, ver, colon, k - art.len() - 1);
    }
    lemma_split_once(art, colon, ver);
    lemma_no_occurrence(art, dc, 0, art.len() as int);
    assert(!contains_seq(art, dc));
    lemma_no_occurrence(art, at, 0, art.len() as int);
    assert forall|k: int| 0 <= k implies !occurs_at(art, at, k) by {}
    lemma_split_whole(art, at);
}

/// The Scala-form argument `group::artifact:version` without `@`, its parts
/// holding no `:` or `@`, reads as the key `group::artifact`, the project's
/// Scala version `d`, and the version.
proof fn lemma_parse_default_scala(g: Seq<char>, art: Seq<char>, ver: Seq<char>, d: Seq<char>)
    requires
        lacks(g, ':'),
        lacks(art, ':'),
        lacks(art, '@'),
        lacks(ver, ':'),
        ver.len() > 0,
        ver != "latest"@,
    ensures
        parse_dep_spec_result(g + "::"@ + (art + ":"@ + ver), d) == Ok::<
            (Seq<char>, Seq<char>, Seq<char>),
            DepSpecError,
        >((g + "::"@ + art, d, ver)),
        contains_seq(g + "::"@ + (art + ":"@ + ver), "::"@),
{
    lemma_default_pieces(g, art, ver);
}

/// An argument that begins with a group holding no `:`, other than `sbt`,
/// followed by `::`, names no sbt project.
proof fn lemma_not_sbt(g: Seq<char>, tail: Seq<char>)
    requires
        lacks(g, ':'),
        g != "sbt"@,
        contains_seq(g + "::"@ + tail, "::"@),
    ensures
        !is_sbt_arg(g + "::"@ + tail),
{
    crate::deps::lemma_group_not_sbt(g, tail);
}

/// `sinter add group::artifact@scala:version` records the key
/// `group::artifact_scala`: the Scala version written after `@` names the
/// artifact, whatever the project's Scala version; and it checks the
/// dependency that key and version name.
pub proof fn law_explicit_scala_version_names_the_key(
    plan: AddPlan,
    g: Seq<char>,
    art: Seq<char>,
    sc: Seq<char>,
    ver: Seq<char>,
    project_scala_version: Seq<char>,
    is_workspace_root: bool,
)
    requires
        lacks(g, ':'),
        g != "sbt"@,
        lacks(art, ':'),
        lacks(art, '@'),
        lacks(sc, ':'),
        lacks(sc, '@'),
        sc.len() > 0,
        sc != "latest"@,
        lacks(ver, ':'),
        ver.len() > 0,
        ver != "latest"@,
        add_plan_ok(
            plan,
            g + "::"@ + art + "@"@ + sc + ":"@ + ver,
            project_scala_version,
            is_workspace_root,
        ),
    ensures
        plan.key@ == g + "::"@ + art + "_"@ + sc,
        plan.version@ == ver,
        plan.check matches AddCheck::ValidateMaven(dep) && dep.view() == toml_key_dep(plan.key@, ver),
{
    assert(g + "::"@ + art + "@"@ + sc + ":"@ + ver =~= g + "::"@ + (art + "@"@ + sc + ":"@ + ver));
    lemma_parse_explicit_scala(g, art, sc, ver, project_scala_version);
    lemma_not_sbt(g, art + "@"@ + sc + ":"@ + ver);
    reveal_strlit("::");
    reveal_strlit(":");
    let a = g + "::"@ + art;
    assert(occurs_at(a, "::"@, g.len() as int)) by {
        assert(a.subrange(g.len() as int, (g.len() + 2) as int) =~= "::"@);
    }
    assert(occurs_at(a, ":"@, g.len() as int)) by {
        assert(a.subrange(g.len() as int, (g.len() + 1) as int) =~= ":"@);
    }
    assert(full_key(a, sc) == a + "_"@ + sc);
}

/// `sinter add group::artifact:version` without `@` records the key
/// `group::artifact_<project Scala version>`, when the project names one.
pub proof fn law_project_scala_version_names_the_key(
    plan: AddPlan,
    g: Seq<char>,
    art: Seq<char>,
    ver: Seq<char>,
    project_scala_version: Seq<char>,
    is_workspace_root: bool,
)
    requires
        lacks(g, ':'),
        g != "sbt"@,
        lacks(art, ':'),
        lacks(art, '@'),
        lacks(ver, ':'),
        ver.len() > 0,
        ver != "latest"@,
        project_scala_version.len() > 0,
        project_scala_version != "latest"@,
        add_plan_ok(plan, g + "::"@ + art + ":"@ + ver, project_scala_version, is_workspace_root),
    ensures
        plan.key@ == g + "::"@ + art + "_"@ + project_scala_version,
        plan.version@ == ver,
        plan.check matches AddCheck::ValidateMaven(dep) && dep.view() == toml_key_dep(plan.key@, ver),
{
    assert(g + "::"@ + art + ":"@ + ver =~= g + "::"@ + (art + ":"@ + ver));
    lemma_parse_default_scala(g, art, ver, project_scala_version);
    lemma_not_sbt(g, art + ":"@ + ver);
    reveal_strlit("::");
    reveal_strlit(":");
    let a = g + "::"@ + art;
    assert(occurs_at(a, "::"@, g.len() as int)) by {
        assert(a.subrange(g.len() as int, (g.len() + 2) as int) =~= "::"@);
    }
    assert(occurs_at(a, ":"@, g.len() as int)) by {
        assert(a.subrange(g.len() as int, (g.len() + 1) as int) =~= ":"@);
    }
    assert(full_key(a, project_scala_version) == a + "_"@ + project_scala_version);
}

} // verus!
