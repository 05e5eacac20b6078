//! Dependencies: coordinates from manifest keys, the direct dependencies of
//! a project, and the parsing of `sinter add` arguments.

pub mod add;
pub mod manager;

pub use manager::{default_dependency_manager, ScalaCliDependencyManager};

use crate::models::dep_map::DependencyMap;
use crate::models::dependency::DependencySpec;
use crate::models::project::Project;
use crate::text::{
    concat, concat3, contains_seq, contains_str, eq_str, lacks, lemma_no_occurrence,
    lemma_occurs_shift, lemma_split_once, occurs_at, split_seq, split_str, starts_with_seq,
    starts_with_str, substring, views,
};
use vstd::prelude::*;

verus! {

/// A resolved dependency: a repository artifact or an sbt project.
#[derive(Debug, Clone)]
pub enum Dependency {
    Maven { group: String, artifact: String, version: String, is_scala: bool },
    Sbt { path: String },
}

/// The value of a dependency.
pub ghost enum DepView {
    Maven { group: Seq<char>, artifact: Seq<char>, version: Seq<char>, is_scala: bool },
    Sbt { path: Seq<char> },
}

impl Dependency {
    pub open spec fn view(self) -> DepView {
        match self {
            Dependency::Maven { group, artifact, version, is_scala } => DepView::Maven {
                group: group@,
                artifact: artifact@,
                version: version@,
                is_scala,
            },
            Dependency::Sbt { path } => DepView::Sbt { path: path@ },
        }
    }
}

/// The views of a list of dependencies.
pub open spec fn dep_views(v: Seq<Dependency>) -> Seq<DepView> {
    v.map_values(|d: Dependency| d.view())
}

// ───────────────────────────── keys and coordinates ─────────────────────────────

/// A key naming an sbt project: `sbt:<path>`, or a path with `/` and no `:`.
pub open spec fn is_sbt_key(k: Seq<char>) -> bool {
    starts_with_seq(k, "sbt:"@) || (contains_seq(k, "/"@) && !contains_seq(k, "::"@)
        && !contains_seq(k, ":"@))
}

/// An artifact name marked with a Scala version suffix.
pub open spec fn scala_artifact(a: Seq<char>) -> bool {
    contains_seq(a, "_2."@) || contains_seq(a, "_3"@)
}

/// The group and artifact of a Maven key: split at the first `::`, else at
/// the first `:`, else an empty group.
pub open spec fn key_group_artifact(k: Seq<char>) -> (Seq<char>, Seq<char>) {
    if contains_seq(k, "::"@) {
        let parts = split_seq(k, "::"@);
        (parts[0], parts[1])
    } else if contains_seq(k, ":"@) {
        let i = crate::text::find_from(k, ":"@, 0)->0;
        (k.subrange(0, i), k.subrange(i + 1, k.len() as int))
    } else {
        (seq![], k)
    }
}

/// The dependency a manifest key and version name (`Dependency::from_toml_key`).
pub open spec fn toml_key_dep(k: Seq<char>, version: Seq<char>) -> DepView {
    if is_sbt_key(k) {
        DepView::Sbt {
            path: if starts_with_seq(k, "sbt:"@) {
                k.subrange(4, k.len() as int)
            } else {
                k
            },
        }
    } else {
        let (group, artifact) = key_group_artifact(k);
        DepView::Maven {
            group: group,
            artifact: artifact,
            version: version,
            is_scala: scala_artifact(artifact),
        }
    }
}

/// The coordinate of a dependency: `group:artifact:version` or `sbt:<path>`.
pub open spec fn coord_of(d: DepView) -> Seq<char> {
    match d {
        DepView::Maven { group, artifact, version, .. } => group + ":"@ + artifact + ":"@ + version,
        DepView::Sbt { path } => "sbt:"@ + path,
    }
}

/// An split always has at least one piece, and a string holding the pattern at least two.
pub proof fn lemma_split_len(s: Seq<char>, pat: Seq<char>)
    requires
        pat.len() > 0,
    ensures
        split_seq(s, pat).len() >= 1,
        contains_seq(s, pat) ==> split_seq(s, pat).len() >= 2,
{
    crate::text::lemma_find_from(s, pat, 0);
    crate::text::lemma_split_from_len(s, pat, 0);
    if contains_seq(s, pat) {
        let w = choose|i: int| crate::text::occurs_at(s, pat, i);
        assert(crate::text::occurs_at(s, pat, w));
        let j = crate::text::find_from(s, pat, 0)->0;
        crate::text::lemma_split_from_len(s, pat, j + pat.len());
    }
}

impl Dependency {
    /// The dependency a manifest key and version name.
    pub fn from_toml_key(key: &str, version: &str) -> (r: Self)
        ensures
            r.view() == toml_key_dep(key@, version@),
    {
        proof {
            reveal_strlit("::");
            reveal_strlit(":");
            lemma_split_len(key@, "::"@);
        }
        if starts_with_str(key, "sbt:") || (contains_str(key, "/") && !contains_str(key, "::")
            && !contains_str(key, ":")) {
            let path = if starts_with_str(key, "sbt:") {
                proof {
                    reveal_strlit("sbt:");
                }
                substring(key, 4, key.unicode_len())
            } else {
                key.to_owned()
            };
            Dependency::Sbt { path }
        } else {
            let (group, artifact) = if contains_str(key, "::") {
                let parts = split_str(key, "::");
                (parts[0].clone(), parts[1].clone())
            } else if contains_str(key, ":") {
                proof {
                    crate::text::lemma_find_from(key@, ":"@, 0);
                    let w = choose|i: int| crate::text::occurs_at(key@, ":"@, i);
                    assert(crate::text::occurs_at(key@, ":"@, w));
                }
                let i = crate::text::find_from_exec(key, ":", 0).unwrap();
                assert(":"@ =~= seq![':']);
                assert(crate::text::occurs_at(key@, ":"@, i as int));
                let n = key.unicode_len();
                (substring(key, 0, i), substring(key, i + 1, n))
            } else {
                (String::new(), key.to_owned())
            };
            let is_scala = contains_str(artifact.as_str(), "_2.") || contains_str(
                artifact.as_str(),
                "_3",
            );
            Dependency::Maven { group, artifact, version: version.to_owned(), is_scala }
        }
    }

    /// The coordinate: `group:artifact:version` or `sbt:<path>`.
    pub fn coord(&self) -> (r: String)
        ensures
            r@ == coord_of(self.view()),
    {
        match self {
            Dependency::Maven { group, artifact, version, .. } => {
                let head = concat3(group.as_str(), ":", artifact.as_str());
                concat3(head.as_str(), ":", version.as_str())
            },
            Dependency::Sbt { path } => concat("sbt:", path.as_str()),
        }
    }

    /// Whether this is an sbt project.
    pub fn is_sbt(&self) -> (b: bool)
        ensures
            b == (self.view() is Sbt),
    {
        match self {
            Dependency::Sbt { .. } => true,
            _ => false,
        }
    }

    /// The path of an sbt project.
    pub fn sbt_path(&self) -> (r: Option<&str>)
        ensures
            match r {
                Some(p) => self.view() == (DepView::Sbt { path: p@ }),
                None => !(self.view() is Sbt),
            },
    {
        match self {
            Dependency::Sbt { path } => Some(path.as_str()),
            _ => None,
        }
    }

    /// A copy of the dependency.
    pub fn duplicate(&self) -> (r: Dependency)
        ensures
            r.view() == self.view(),
    {
        match self {
            Dependency::Maven { group, artifact, version, is_scala } => Dependency::Maven {
                group: group.clone(),
                artifact: artifact.clone(),
                version: version.clone(),
                is_scala: *is_scala,
            },
            Dependency::Sbt { path } => Dependency::Sbt { path: path.clone() },
        }
    }
}

/// Reading back the coordinate of an sbt dependency as a manifest key gives
/// the same dependency, whatever the version.
pub proof fn law_sbt_coord_roundtrip(path: Seq<char>, version: Seq<char>)
    ensures
        toml_key_dep(coord_of(DepView::Sbt { path }), version) == (DepView::Sbt { path }),
{
    reveal_strlit("sbt:");
    let k = "sbt:"@ + path;
    assert(k.subrange(0, 4) =~= "sbt:"@);
    assert(crate::text::occurs_at(k, "sbt:"@, 0));
    assert(k.subrange(4, k.len() as int) =~= path);
}

// ───────────────────────────── direct dependencies ─────────────────────────────

/// The dependency of one manifest entry: a string value is the version; a
/// table gives its version, and is skipped without one.
pub open spec fn entry_dep(name: Seq<char>, spec: DependencySpec) -> Seq<DepView> {
    match spec {
        DependencySpec::Simple(v) => seq![toml_key_dep(name, v@)],
        DependencySpec::Detailed(d) => match d.version {
            Some(v) => seq![toml_key_dep(name, v@)],
            None => seq![],
        },
    }
}

/// The dependencies of the manifest entries, in order.
pub open spec fn direct_deps(entries: Seq<(String, DependencySpec)>) -> Seq<DepView>
    decreases entries.len(),
{
    if entries.len() == 0 {
        seq![]
    } else {
        direct_deps(entries.drop_last()) + entry_dep(entries.last().0@, entries.last().1)
    }
}

/// The dependency of one entry when the workspace `ws` may supply versions:
/// an entry that defers to the workspace takes the workspace entry of the
/// same name, and is skipped when there is none.
pub open spec fn entry_dep_ws(
    name: Seq<char>,
    spec: DependencySpec,
    ws: Option<Map<Seq<char>, DependencySpec>>,
) -> Seq<DepView> {
    match spec {
        DependencySpec::Detailed(d) => if d.workspace {
            match ws {
                Some(m) => if m.dom().contains(name) {
                    entry_dep(name, m[name])
                } else {
                    seq![]
                },
                None => seq![],
            }
        } else {
            entry_dep(name, spec)
        },
        _ => entry_dep(name, spec),
    }
}

/// The dependencies of the entries, with versions from the workspace where deferred.
pub open spec fn direct_deps_ws(
    entries: Seq<(String, DependencySpec)>,
    ws: Option<Map<Seq<char>, DependencySpec>>,
) -> Seq<DepView>
    decreases entries.len(),
{
    if entries.len() == 0 {
        seq![]
    } else {
        direct_deps_ws(entries.drop_last(), ws) + entry_dep_ws(
            entries.last().0@,
            entries.last().1,
            ws,
        )
    }
}

/// The workspace dependency table a workspace root supplies, if any.
pub open spec fn ws_table(root: Option<Project>) -> Option<Map<Seq<char>, DependencySpec>> {
    match root {
        Some(p) => match p.workspace {
            Some(w) => Some(w.dependencies.as_map()),
            None => None,
        },
        None => None,
    }
}

fn push_entry_dep(out: &mut Vec<Dependency>, name: &str, spec: &DependencySpec)
    ensures
        dep_views(final(out)@) == dep_views(old(out)@) + entry_dep(name@, *spec),
{
    let ghost before = out@;
    match spec {
        DependencySpec::Simple(version) => {
            out.push(Dependency::from_toml_key(name, version.as_str()));
            assert(dep_views(out@) =~= dep_views(before) + entry_dep(name@, *spec));
        },
        DependencySpec::Detailed(detail) => match &detail.version {
            Some(v) => {
                out.push(Dependency::from_toml_key(name, v.as_str()));
                assert(dep_views(out@) =~= dep_views(before) + entry_dep(name@, *spec));
            },
            None => {
                assert(dep_views(out@) =~= dep_views(before) + entry_dep(name@, *spec));
            },
        },
    }
}

/// The direct dependencies of a project, in manifest order.
pub fn get_dependencies(project: &Project) -> (r: Vec<Dependency>)
    ensures
        dep_views(r@) == direct_deps(project.dependencies@),
{
    let deps = &project.dependencies;
    let mut out: Vec<Dependency> = Vec::new();
    let mut i: usize = 0;
    while i < deps.len()
        invariant
            i <= deps@.len(),
            dep_views(out@) == direct_deps(deps@.subrange(0, i as int)),
        decreases deps@.len() - i,
    {
        let (name, spec) = deps.entry(i);
        assert(deps@.subrange(0, i + 1).drop_last() =~= deps@.subrange(0, i as int));
        push_entry_dep(&mut out, name.as_str(), spec);
        i = i + 1;
    }
    assert(deps@.subrange(0, deps@.len() as int) =~= deps@);
    out
}

/// The direct dependencies of a project, taking versions from the workspace
/// root's table for the entries that defer to it.
pub fn get_dependencies_with_workspace(project: &Project, workspace_root: Option<&Project>) -> (r:
    Vec<Dependency>)
    ensures
        dep_views(r@) == direct_deps_ws(
            project.dependencies@,
            ws_table(
                match workspace_root {
                    Some(p) => Some(*p),
                    None => None,
                },
            ),
        ),
{
    let ghost table = ws_table(
        match workspace_root {
            Some(p) => Some(*p),
            None => None,
        },
    );
    let ws_deps: Option<&DependencyMap> = match workspace_root {
        Some(root) => match &root.workspace {
            Some(w) => Some(&w.dependencies),
            None => None,
        },
        None => None,
    };
    assert(match ws_deps {
        Some(m) => table == Some(m.as_map()),
        None => table is None,
    });
    let deps = &project.dependencies;
    let mut out: Vec<Dependency> = Vec::new();
    let mut i: usize = 0;
    while i < deps.len()
        invariant
            i <= deps@.len(),
            match ws_deps {
                Some(m) => table == Some(m.as_map()),
                None => table is None,
            },
            dep_views(out@) == direct_deps_ws(deps@.subrange(0, i as int), table),
        decreases deps@.len() - i,
    {
        let (name, spec) = deps.entry(i);
        assert(deps@.subrange(0, i + 1).drop_last() =~= deps@.subrange(0, i as int));
        let ghost before = out@;
        match spec {
            DependencySpec::Detailed(detail) => {
                if detail.workspace {
                    match ws_deps {
                        Some(m) => match m.get(name.as_str()) {
                            Some(ws_spec) => {
                                push_entry_dep(&mut out, name.as_str(), ws_spec);
                            },
                            None => {
                                assert(dep_views(out@) =~= dep_views(before) + entry_dep_ws(
                                    name@,
                                    *spec,
                                    table,
                                ));
                            },
                        },
                        None => {
                            assert(dep_views(out@) =~= dep_views(before) + entry_dep_ws(
                                name@,
                                *spec,
                                table,
                            ));
                        },
                    }
                } else {
                    push_entry_dep(&mut out, name.as_str(), spec);
                }
            },
            _ => {
                push_entry_dep(&mut out, name.as_str(), spec);
            },
        }
        i = i + 1;
    }
    assert(deps@.subrange(0, deps@.len() as int) =~= deps@);
    out
}

/// The workspace root only matters for entries that defer to it: without
/// such entries, the workspace-aware dependencies are the plain ones,
/// whatever the root supplies.
pub proof fn law_workspace_only_supplies_deferred(
    entries: Seq<(String, DependencySpec)>,
    ws: Option<Map<Seq<char>, DependencySpec>>,
)
    requires
        forall|i: int| 0 <= i < entries.len() ==> !(#[trigger] entries[i].1).is_workspace_dependency_spec(),
    ensures
        direct_deps_ws(entries, ws) == direct_deps(entries),
    decreases entries.len(),
{
    if entries.len() > 0 {
        law_workspace_only_supplies_deferred(entries.drop_last(), ws);
        assert(!entries[entries.len() - 1].1.is_workspace_dependency_spec());
    }
}

/// Without a workspace root, an entry that defers to the workspace gives no
/// dependency: it is left out, and the others are read as usual.
pub proof fn law_no_workspace_drops_deferred(entries: Seq<(String, DependencySpec)>)
    ensures
        direct_deps_ws(entries, None) == direct_deps(
            entries.filter(|e: (String, DependencySpec)| !e.1.is_workspace_dependency_spec()),
        ),
    decreases entries.len(),
{
    reveal(Seq::filter);
    if entries.len() > 0 {
        law_no_workspace_drops_deferred(entries.drop_last());
        let pred = |e: (String, DependencySpec)| !e.1.is_workspace_dependency_spec();
        let last = entries.last();
        let f = entries.drop_last().filter(pred);
        if pred(last) {
            assert(entries.filter(pred) == f.push(last));
            assert(f.push(last).drop_last() =~= f);
        } else {
            assert(entries.filter(pred) == f);
        }
    }
}

/// An entry that defers to the workspace takes the version that the workspace
/// root's entry of the same name gives, in its string form or in its table
/// form: it reads as the dependency its name and that version name, alone and
/// among the project's entries.
pub proof fn law_deferred_entry_takes_workspace_version(
    name: String,
    spec: DependencySpec,
    m: Map<Seq<char>, DependencySpec>,
    v: Seq<char>,
)
    requires
        spec matches DependencySpec::Detailed(d) && d.workspace,
        m.dom().contains(name@),
        match m[name@] {
            DependencySpec::Simple(s) => s@ == v,
            DependencySpec::Detailed(wd) => wd.version matches Some(s) && s@ == v,
        },
    ensures
        entry_dep_ws(name@, spec, Some(m)) == seq![toml_key_dep(name@, v)],
        direct_deps_ws(seq![(name, spec)], Some(m)) == seq![toml_key_dep(name@, v)],
{
    let e = seq![(name, spec)];
    assert(e.drop_last() =~= Seq::<(String, DependencySpec)>::empty());
    assert(e.last() == (name, spec));
    assert(direct_deps_ws(Seq::<(String, DependencySpec)>::empty(), Some(m)) =~= Seq::<DepView>::empty());
    assert(Seq::<DepView>::empty() + seq![toml_key_dep(name@, v)] =~= seq![toml_key_dep(name@, v)]);
}

/// A key that begins with a group holding no `:`, other than `sbt`, followed
/// by `::`, does not begin with `sbt:`.
pub proof fn lemma_group_not_sbt(g: Seq<char>, tail: Seq<char>)
    requires
        lacks(g, ':'),
        g != "sbt"@,
    ensures
        !starts_with_seq(g + "::"@ + tail, "sbt:"@),
{
    reveal_strlit("sbt:");
    reveal_strlit("sbt");
    reveal_strlit("::");
    let arg = g + "::"@ + tail;
    if starts_with_seq(arg, "sbt:"@) {
        let head = arg.subrange(0, 4);
        assert(head == "sbt:"@);
        assert(head[3] == ':');
        assert(head[3] == arg[3]);
        if g.len() > 3 {
            assert(arg[3] == g[3]);
        } else if g.len() == 3 {
            assert(arg.subrange(0, 3) =~= g);
            assert(head.subrange(0, 3) =~= "sbt"@);
            assert(arg.subrange(0, 3) =~= head.subrange(0, 3));
        } else {
            assert(arg[g.len() as int] == ':');
            assert(head[g.len() as int] == arg[g.len() as int]);
        }
    }
}

/// A manifest key that names no sbt project names a repository artifact with
/// the given version, which is a Scala artifact exactly when its artifact part
/// holds `_2.` or `_3` (so `cats-core_3` and `cats-core_2.13` are, `guava` is
/// not).
pub proof fn law_scala_suffix_marks_scala_artifact(k: Seq<char>, v: Seq<char>)
    requires
        !starts_with_seq(k, "sbt:"@),
        !(contains_seq(k, "/"@) && !contains_seq(k, ":"@)),
    ensures
        toml_key_dep(k, v) matches DepView::Maven { artifact, version, is_scala, .. } && version == v
            && (is_scala <==> (contains_seq(artifact, "_2."@) || contains_seq(artifact, "_3"@))),
{
}

/// How the key `group::artifact` splits, its parts holding no `:`.
#[verifier::rlimit(40)]
proof fn lemma_scala_key_pieces(g: Seq<char>, a: Seq<char>)
    requires
        lacks(g, ':'),
        lacks(a, ':'),
    ensures
        split_seq(g + "::"@ + a, "::"@) == seq![g, a],
        contains_seq(g + "::"@ + a, "::"@),
        contains_seq(g + "::"@ + a, ":"@),
{
    reveal_strlit("::");
    reveal_strlit(":");
    let dc = seq![':', ':'];
    assert("::"@ =~= dc);
    let k = g + dc + a;
    lemma_no_occurrence(k, dc, 0, g.len() as int);
    lemma_no_occurrence(a, dc, 0, a.len() as int);
    assert forall|j: int| g.len() + dc.len() <= j implies !occurs_at(k, dc, j) by {
        lemma_occurs_shift(g + dc, a, dc, j - g.len() - 2);
    }
    lemma_split_once(g, dc, a);
    assert(k.subrange(g.len() as int, (g.len() + 1) as int) =~= ":"@);
    assert(occurs_at(k, ":"@, g.len() as int));
}

/// The key `group::artifact`, its parts holding no `:` and its group other
/// than `sbt`, names the repository artifact `artifact` of `group`, a Scala
/// artifact exactly when `artifact` holds `_2.` or `_3`.
pub proof fn law_scala_key_names_group_and_artifact(g: Seq<char>, a: Seq<char>, v: Seq<char>)
    requires
        lacks(g, ':'),
        g != "sbt"@,
        lacks(a, ':'),
    ensures
        toml_key_dep(g + "::"@ + a, v) == (DepView::Maven {
            group: g,
            artifact: a,
            version: v,
            is_scala: contains_seq(a, "_2."@) || contains_seq(a, "_3"@),
        }),
{
    lemma_scala_key_pieces(g, a);
    lemma_group_not_sbt(g, a);
}

} // verus!
