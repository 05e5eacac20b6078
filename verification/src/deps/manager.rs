//! The scala-cli dependency manager: resolving sbt project paths, the
//! arguments handed to scala-cli, and the reading of sbt dependency trees.

use crate::deps::{coord_of, dep_views, DepView, Dependency};
use crate::text::{
    concat, contains_seq, contains_str, eq_str, find_from, find_from_exec, first_word,
    first_word_or_self, is_blank, is_blank_seq, split_seq, split_str, starts_with_seq,
    starts_with_str, substring, trim, trim_seq, trim_start_matches, trim_start_matches_seq, views,
};
use crate::toolkit::os::path_join;
use vstd::prelude::*;

verus! {

/// The dependency manager that hands dependencies to scala-cli.
#[derive(Debug)]
pub struct ScalaCliDependencyManager {
    project_dir: Option<String>,
}

/// A relative path is resolved against the project directory when one is set.
pub open spec fn resolved(dir: Option<Seq<char>>, p: Seq<char>) -> Seq<char> {
    if p.len() > 0 && p[0] == '/' {
        p
    } else {
        match dir {
            Some(d) => path_join(d, p),
            None => p,
        }
    }
}

/// The scala-cli value for one dependency: its coordinate, or `file://` and
/// the resolved path of an sbt project.
pub open spec fn dep_arg(dir: Option<Seq<char>>, d: DepView) -> Seq<char> {
    match d {
        DepView::Maven { .. } => coord_of(d),
        DepView::Sbt { path } => "file://"@ + resolved(dir, path),
    }
}

/// `--dependency <value>` for each dependency, in order.
pub open spec fn build_args(dir: Option<Seq<char>>, ds: Seq<DepView>) -> Seq<Seq<char>>
    decreases ds.len(),
{
    if ds.len() == 0 {
        seq![]
    } else {
        build_args(dir, ds.drop_last()) + seq!["--dependency"@, dep_arg(dir, ds.last())]
    }
}

/// The resolved paths of the sbt projects among the dependencies, in order.
pub open spec fn sbt_paths(dir: Option<Seq<char>>, ds: Seq<DepView>) -> Seq<Seq<char>>
    decreases ds.len(),
{
    if ds.len() == 0 {
        seq![]
    } else {
        sbt_paths(dir, ds.drop_last()) + match ds.last() {
            DepView::Sbt { path } => seq![resolved(dir, path)],
            _ => seq![],
        }
    }
}

impl ScalaCliDependencyManager {
    /// A manager with no project directory set.
    pub fn new() -> (r: Self)
        ensures
            r.project_dir() is None,
    {
        ScalaCliDependencyManager { project_dir: None }
    }

    /// The directory relative paths are resolved against.
    pub closed spec fn project_dir(&self) -> Option<Seq<char>> {
        match self.project_dir {
            Some(d) => Some(d@),
            None => None,
        }
    }

    /// Sets the directory relative paths are resolved against.
    pub fn set_project_dir(&mut self, project_dir: &str)
        ensures
            final(self).project_dir() == Some(project_dir@),
    {
        self.project_dir = Some(project_dir.to_owned());
    }

    /// `path` resolved against the project directory when it is relative.
    pub fn resolve_path(&self, path: &str) -> (r: String)
        ensures
            r@ == resolved(self.project_dir(), path@),
    {
        if path.unicode_len() > 0 && path.get_char(0) == '/' {
            return path.to_owned();
        }
        match &self.project_dir {
            Some(dir) => crate::toolkit::os::join_text(dir.as_str(), path),
            None => path.to_owned(),
        }
    }

    /// The scala-cli arguments that add the dependencies to a build.
    pub fn get_build_args(&self, deps: &Vec<Dependency>) -> (r: Vec<String>)
        ensures
            views(r@) == build_args(self.project_dir(), dep_views(deps@)),
    {
        let mut args: Vec<String> = Vec::new();
        let mut i: usize = 0;
        while i < deps.len()
            invariant
                i <= deps@.len(),
                views(args@) == build_args(self.project_dir(), dep_views(deps@).subrange(0, i as int)),
            decreases deps@.len() - i,
        {
            let ghost before = args@;
            assert(dep_views(deps@).subrange(0, i + 1).drop_last() =~= dep_views(deps@).subrange(
                0,
                i as int,
            ));
            let value = match &deps[i] {
                Dependency::Maven { .. } => deps[i].coord(),
                Dependency::Sbt { path } => {
                    let resolved = self.resolve_path(path.as_str());
                    concat("file://", resolved.as_str())
                },
            };
            args.push("--dependency".to_owned());
            args.push(value);
            assert(views(args@) =~= views(before) + seq!["--dependency"@, dep_arg(
                self.project_dir(),
                deps@[i as int].view(),
            )]);
            i = i + 1;
        }
        assert(dep_views(deps@).subrange(0, deps@.len() as int) =~= dep_views(deps@));
        args
    }

    /// The scala-cli arguments that add the dependencies to a run (the same as for a build).
    pub fn get_run_args(&self, deps: &Vec<Dependency>) -> (r: Vec<String>)
        ensures
            views(r@) == build_args(self.project_dir(), dep_views(deps@)),
    {
        self.get_build_args(deps)
    }

    /// The resolved paths of the sbt projects that must exist before a build.
    pub fn sbt_paths_to_check(&self, deps: &Vec<Dependency>) -> (r: Vec<String>)
        ensures
            views(r@) == sbt_paths(self.project_dir(), dep_views(deps@)),
    {
        let mut out: Vec<String> = Vec::new();
        let mut i: usize = 0;
        while i < deps.len()
            invariant
                i <= deps@.len(),
                views(out@) == sbt_paths(self.project_dir(), dep_views(deps@).subrange(0, i as int)),
            decreases deps@.len() - i,
        {
            let ghost before = out@;
            assert(dep_views(deps@).subrange(0, i + 1).drop_last() =~= dep_views(deps@).subrange(
                0,
                i as int,
            ));
            match &deps[i] {
                Dependency::Sbt { path } => {
                    out.push(self.resolve_path(path.as_str()));
                    assert(views(out@) =~= views(before).push(
                        resolved(self.project_dir(), path@),
                    ));
                },
                _ => {
                    assert(views(out@) =~= views(before));
                },
            }
            i = i + 1;
        }
        assert(dep_views(deps@).subrange(0, deps@.len() as int) =~= dep_views(deps@));
        out
    }
}

/// A dependency manager: the arguments it adds to builds and runs, and the
/// directory it resolves relative paths against.
pub trait DependencyManager {
    /// The arguments that add the dependencies to a build.
    fn get_build_args(&self, deps: &Vec<Dependency>) -> Vec<String>;

    /// The arguments that add the dependencies to a run.
    fn get_run_args(&self, deps: &Vec<Dependency>) -> Vec<String>;

    /// Sets the directory relative paths are resolved against.
    fn set_project_dir(&mut self, project_dir: &str);
}

impl DependencyManager for ScalaCliDependencyManager {
    fn get_build_args(&self, deps: &Vec<Dependency>) -> (r: Vec<String>)
        ensures
            views(r@) == build_args(self.project_dir(), dep_views(deps@)),
    {
        ScalaCliDependencyManager::get_build_args(self, deps)
    }

    fn get_run_args(&self, deps: &Vec<Dependency>) -> (r: Vec<String>)
        ensures
            views(r@) == build_args(self.project_dir(), dep_views(deps@)),
    {
        ScalaCliDependencyManager::get_run_args(self, deps)
    }

    fn set_project_dir(&mut self, project_dir: &str)
        ensures
            final(self).project_dir() == Some(project_dir@),
    {
        ScalaCliDependencyManager::set_project_dir(self, project_dir)
    }
}

/// The default dependency manager.
pub fn default_dependency_manager() -> (r: ScalaCliDependencyManager)
    ensures
        r.project_dir() is None,
{
    ScalaCliDependencyManager::new()
}

/// The scala-cli arguments that check a repository dependency can be fetched.
pub fn validation_args(coord: &str) -> (r: Vec<String>)
    ensures
        views(r@) == seq!["--dependency"@, coord@, "--quiet"@, "-e"@, "println(\"test\")"@],
{
    let mut args: Vec<String> = Vec::new();
    args.push("--dependency".to_owned());
    args.push(coord.to_owned());
    args.push("--quiet".to_owned());
    args.push("-e".to_owned());
    args.push("println(\"test\")".to_owned());
    assert(views(args@) =~= seq!["--dependency"@, coord@, "--quiet"@, "-e"@, "println(\"test\")"@]);
    args
}

// ───────────────────────────── Maven coordinates ─────────────────────────────

/// An artifact name with a Scala 2.13, 2.12 or 3 suffix.
pub open spec fn scala_suffixed(a: Seq<char>) -> bool {
    contains_seq(a, "_2.13"@) || contains_seq(a, "_2.12"@) || contains_seq(a, "_3"@)
}

/// A `group:artifact:version` line read as a dependency: the line is trimmed;
/// an empty line, a comment, or fewer than three pieces give nothing; pieces
/// past the third are ignored.
pub open spec fn maven_coord(line: Seq<char>) -> Option<DepView> {
    let t = trim_seq(line);
    if t.len() == 0 || starts_with_seq(t, "#"@) {
        None
    } else {
        let parts = split_seq(t, ":"@);
        if parts.len() < 3 {
            None
        } else {
            Some(
                DepView::Maven {
                    group: parts[0],
                    artifact: parts[1],
                    version: parts[2],
                    is_scala: scala_suffixed(parts[1]),
                },
            )
        }
    }
}

/// Reads one `group:artifact:version` line.
pub fn parse_maven_coord(line: &str) -> (r: Option<Dependency>)
    ensures
        match r {
            Some(d) => maven_coord(line@) == Some(d.view()),
            None => maven_coord(line@) is None,
        },
{
    proof {
        reveal_strlit(":");
        reveal_strlit("#");
    }
    let t = trim(line);
    let ts = t.as_str();
    if ts.unicode_len() == 0 || starts_with_str(ts, "#") {
        return None;
    }
    let parts = split_str(ts, ":");
    if parts.len() < 3 {
        return None;
    }
    let artifact = parts[1].as_str();
    let is_scala = contains_str(artifact, "_2.13") || contains_str(artifact, "_2.12")
        || contains_str(artifact, "_3");
    Some(
        Dependency::Maven {
            group: parts[0].clone(),
            artifact: parts[1].clone(),
            version: parts[2].clone(),
            is_scala,
        },
    )
}

// ───────────────────────────── deduplication ─────────────────────────────

/// Whether some dependency in `ds` has coordinate `c`.
pub open spec fn has_coord(ds: Seq<DepView>, c: Seq<char>) -> bool {
    exists|i: int| 0 <= i < ds.len() && coord_of(ds[i]) == c
}

/// The dependencies in order, each coordinate kept at its first occurrence only.
pub open spec fn dedup(ds: Seq<DepView>) -> Seq<DepView>
    decreases ds.len(),
{
    if ds.len() == 0 {
        seq![]
    } else {
        let r = dedup(ds.drop_last());
        if has_coord(r, coord_of(ds.last())) {
            r
        } else {
            r.push(ds.last())
        }
    }
}

/// A list that keeps the first dependency of each coordinate.
pub struct UniqueDeps {
    pub deps: Vec<Dependency>,
    pub coords: Vec<String>,
}

impl UniqueDeps {
    pub open spec fn wf(&self) -> bool {
        &&& self.coords@.len() == self.deps@.len()
        &&& forall|i: int|
            0 <= i < self.deps@.len() ==> #[trigger] self.coords@[i]@ == coord_of(
                self.deps@[i].view(),
            )
    }

    pub fn new() -> (r: Self)
        ensures
            r.wf(),
            r.deps@.len() == 0,
    {
        UniqueDeps { deps: Vec::new(), coords: Vec::new() }
    }

    /// Adds `d` unless a dependency with its coordinate is already there.
    pub fn add(&mut self, d: Dependency)
        requires
            old(self).wf(),
        ensures
            final(self).wf(),
            dep_views(final(self).deps@) == if has_coord(
                dep_views(old(self).deps@),
                coord_of(d.view()),
            ) {
                dep_views(old(self).deps@)
            } else {
                dep_views(old(self).deps@).push(d.view())
            },
    {
        let c = d.coord();
        let mut i: usize = 0;
        while i < self.coords.len()
            invariant
                self.wf(),
                i <= self.coords@.len(),
                c@ == coord_of(d.view()),
                forall|j: int| 0 <= j < i ==> self.coords@[j]@ != c@,
            decreases self.coords@.len() - i,
        {
            if eq_str(self.coords[i].as_str(), c.as_str()) {
                proof {
                    assert(coord_of(dep_views(self.deps@)[i as int]) == c@);
                }
                return;
            }
            i = i + 1;
        }
        proof {
            assert forall|j: int| 0 <= j < dep_views(self.deps@).len() implies coord_of(
                dep_views(self.deps@)[j],
            ) != c@ by {
                assert(self.coords@[j]@ == coord_of(self.deps@[j].view()));
            }
        }
        let ghost before = self.deps@;
        self.deps.push(d);
        self.coords.push(c);
        assert(dep_views(self.deps@) =~= dep_views(before).push(self.deps@.last().view()));
    }
}

/// No two dependencies of a deduplicated list share a coordinate.
pub proof fn law_dedup_unique(ds: Seq<DepView>)
    ensures
        forall|i: int, j: int|
            0 <= i < j < dedup(ds).len() ==> coord_of(dedup(ds)[i]) != coord_of(dedup(ds)[j]),
    decreases ds.len(),
{
    if ds.len() > 0 {
        law_dedup_unique(ds.drop_last());
        let r = dedup(ds.drop_last());
        if !has_coord(r, coord_of(ds.last())) {
            assert forall|i: int, j: int|
                0 <= i < j < dedup(ds).len() implies coord_of(dedup(ds)[i]) != coord_of(
                dedup(ds)[j],
            ) by {
                if j == r.len() {
                    assert(dedup(ds)[i] == r[i]);
                }
            }
        }
    }
}

/// Every coordinate of the input appears in the deduplicated list.
pub proof fn law_dedup_keeps_coords(ds: Seq<DepView>)
    ensures
        forall|i: int| 0 <= i < ds.len() ==> has_coord(dedup(ds), coord_of(#[trigger] ds[i])),
    decreases ds.len(),
{
    if ds.len() > 0 {
        let p = ds.drop_last();
        law_dedup_keeps_coords(p);
        let r = dedup(p);
        assert forall|i: int| 0 <= i < ds.len() implies has_coord(
            dedup(ds),
            coord_of(#[trigger] ds[i]),
        ) by {
            if i < ds.len() - 1 {
                assert(ds[i] == p[i]);
                assert(has_coord(r, coord_of(p[i])));
                let k = choose|k: int| 0 <= k < r.len() && coord_of(r[k]) == coord_of(p[i]);
                if !has_coord(r, coord_of(ds.last())) {
                    assert(dedup(ds)[k] == r[k]);
                }
            } else {
                if !has_coord(r, coord_of(ds.last())) {
                    assert(dedup(ds)[r.len() as int] == ds.last());
                }
            }
        }
    }
}

// ───────────────────────────── transitive dependencies ─────────────────────────────

/// What one direct dependency contributes: a repository artifact itself; an
/// sbt project the dependencies read from its tree, or itself when reading failed.
pub open spec fn contribution(d: DepView, tree: Option<Seq<DepView>>) -> Seq<DepView> {
    match d {
        DepView::Maven { .. } => seq![d],
        DepView::Sbt { .. } => match tree {
            Some(t) => t,
            None => seq![d],
        },
    }
}

/// The contributions of all direct dependencies, in order.
pub open spec fn expand(ds: Seq<DepView>, trees: Seq<Option<Seq<DepView>>>) -> Seq<DepView>
    decreases ds.len(),
{
    if ds.len() == 0 || trees.len() != ds.len() {
        seq![]
    } else {
        expand(ds.drop_last(), trees.drop_last()) + contribution(ds.last(), trees.last())
    }
}

/// The view of what reading an sbt project's tree gave.
pub open spec fn tree_view(t: Option<Vec<Dependency>>) -> Option<Seq<DepView>> {
    match t {
        Some(v) => Some(dep_views(v@)),
        None => None,
    }
}

/// The transitive dependencies: each direct dependency's contribution, with
/// each coordinate kept once. `trees[i]` is what reading the tree of
/// `deps[i]` gave, when it is an sbt project (`None` when reading failed).
pub fn merge_transitive(deps: &Vec<Dependency>, trees: Vec<Option<Vec<Dependency>>>) -> (r: Vec<
    Dependency,
>)
    requires
        trees@.len() == deps@.len(),
    ensures
        dep_views(r@) == dedup(
            expand(dep_views(deps@), trees@.map_values(|t: Option<Vec<Dependency>>| tree_view(t))),
        ),
{
    let ghost tv = trees@.map_values(|t: Option<Vec<Dependency>>| tree_view(t));
    let ghost all = expand(dep_views(deps@), tv);
    let mut acc = UniqueDeps::new();
    let mut trees = trees;
    let ghost orig = trees@;
    let n = deps.len();
    let ghost emitted: Seq<DepView> = seq![];
    let mut i: usize = 0;
    assert(dep_views(acc.deps@) =~= dedup(seq![]));
    while i < n
        invariant
            n == deps@.len(),
            i <= n,
            orig.len() == n,
            trees@ == orig.subrange(i as int, n as int),
            tv == orig.map_values(|t: Option<Vec<Dependency>>| tree_view(t)),
            acc.wf(),
            emitted == expand(dep_views(deps@).subrange(0, i as int), tv.subrange(0, i as int)),
            dep_views(acc.deps@) == dedup(emitted),
        decreases n - i,
    {
        assert(dep_views(deps@).subrange(0, i + 1).drop_last() =~= dep_views(deps@).subrange(
            0,
            i as int,
        ));
        assert(tv.subrange(0, i + 1).drop_last() =~= tv.subrange(0, i as int));
        let ghost part = contribution(deps@[i as int].view(), tv[i as int]);
        let tree = trees.remove(0);
        assert(trees@ =~= orig.subrange(i + 1, n as int));
        assert(tree == orig[i as int]);
        assert(tree_view(tree) == tv[i as int]);
        let items: Vec<Dependency> = match &deps[i] {
            Dependency::Maven { .. } => {
                let mut v = Vec::new();
                v.push(deps[i].duplicate());
                assert(dep_views(v@) =~= part);
                v
            },
            Dependency::Sbt { .. } => match tree {
                Some(t) => t,
                None => {
                    let mut v = Vec::new();
                    v.push(deps[i].duplicate());
                    assert(dep_views(v@) =~= part);
                    v
                },
            },
        };
        assert(dep_views(items@) == part);
        let mut k: usize = 0;
        let ghost base = emitted;
        while k < items.len()
            invariant
                k <= items@.len(),
                acc.wf(),
                dep_views(acc.deps@) == dedup(base + dep_views(items@).subrange(0, k as int)),
            decreases items@.len() - k,
        {
            let ghost cur = base + dep_views(items@).subrange(0, k as int);
            let ghost nxt = base + dep_views(items@).subrange(0, k + 1);
            assert(nxt.drop_last() =~= cur);
            acc.add(items[k].duplicate());
            k = k + 1;
        }
        assert(dep_views(items@).subrange(0, items@.len() as int) =~= dep_views(items@));
        proof {
            emitted = base + part;
        }
        i = i + 1;
    }
    assert(dep_views(deps@).subrange(0, n as int) =~= dep_views(deps@));
    assert(tv.subrange(0, n as int) =~= tv);
    acc.deps
}

// ───────────────────────────── sbt dependency trees ─────────────────────────────

/// One line of `sbt dependencyTree` output read as a dependency: the line is
/// trimmed, stripped of its `[info]` prefixes and trimmed again; evicted
/// entries and lines without a `+-` node marker give nothing; otherwise the
/// first word after the marker is read as a coordinate.
pub open spec fn tree_line_dep(line: Seq<char>) -> Option<DepView> {
    let l = trim_seq(trim_start_matches_seq(trim_seq(line), "[info]"@));
    if contains_seq(l, "(evicted)"@) {
        None
    } else {
        match find_from(l, "+-"@, 0) {
            None => None,
            Some(pos) => maven_coord(first_word_or_self(trim_seq(l.subrange(pos + 2, l.len() as int)))),
        }
    }
}

/// The dependencies named by the lines, in order.
pub open spec fn tree_deps(lines: Seq<Seq<char>>) -> Seq<DepView>
    decreases lines.len(),
{
    if lines.len() == 0 {
        seq![]
    } else {
        tree_deps(lines.drop_last()) + match tree_line_dep(lines.last()) {
            Some(d) => seq![d],
            None => seq![],
        }
    }
}

/// Reads one line of `sbt dependencyTree` output.
pub fn parse_tree_line(line: &str) -> (r: Option<Dependency>)
    ensures
        match r {
            Some(d) => tree_line_dep(line@) == Some(d.view()),
            None => tree_line_dep(line@) is None,
        },
{
    proof {
        reveal_strlit("+-");
    }
    let t1 = trim(line);
    let t2 = trim_start_matches(t1.as_str(), "[info]");
    let l = trim(t2.as_str());
    let ls = l.as_str();
    if contains_str(ls, "(evicted)") {
        return None;
    }
    proof {
        crate::text::lemma_find_from(ls@, "+-"@, 0);
    }
    match find_from_exec(ls, "+-", 0) {
        None => None,
        Some(pos) => {
            let n = ls.unicode_len();
            let rest = substring(ls, pos + 2, n);
            let trimmed = trim(rest.as_str());
            let word = first_word(trimmed.as_str());
            parse_maven_coord(word.as_str())
        },
    }
}

/// The dependencies of `sbt dependencyTree` output: the lines (split at `\n`)
/// read in order, each coordinate kept once.
pub fn parse_dependency_tree(output: &str) -> (r: Vec<Dependency>)
    ensures
        dep_views(r@) == dedup(tree_deps(split_seq(output@, "\n"@))),
{
    proof {
        reveal_strlit("\n");
    }
    let lines = split_str(output, "\n");
    let mut acc = UniqueDeps::new();
    let mut i: usize = 0;
    let ghost ls = views(lines@);
    assert(ls.subrange(0, 0) =~= Seq::<Seq<char>>::empty());
    while i < lines.len()
        invariant
            i <= lines@.len(),
            ls == views(lines@),
            acc.wf(),
            dep_views(acc.deps@) == dedup(tree_deps(ls.subrange(0, i as int))),
        decreases lines@.len() - i,
    {
        assert(ls.subrange(0, i + 1).drop_last() =~= ls.subrange(0, i as int));
        match parse_tree_line(lines[i].as_str()) {
            Some(d) => {
                let ghost prev = tree_deps(ls.subrange(0, i as int));
                assert(tree_deps(ls.subrange(0, i + 1)) =~= prev.push(d.view()));
                assert(prev.push(d.view()).drop_last() =~= prev);
                acc.add(d);
            },
            None => {
                assert(tree_deps(ls.subrange(0, i + 1)) =~= tree_deps(ls.subrange(0, i as int)));
            },
        }
        i = i + 1;
    }
    assert(ls.subrange(0, lines@.len() as int) =~= ls);
    acc.deps
}

} // verus!
