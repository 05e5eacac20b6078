//! Workspaces: a root with member projects and shared dependencies.

use crate::models::dep_map::{entries_map, lemma_entries_map_push, names_distinct, DependencyMap};
use crate::models::dependency::{
    msgs, push_msg, reports, spec_errors, DependencyDto, DependencySpec,
};
use crate::text::concat;
use crate::toolkit::os::PathWrapper;
use vstd::prelude::*;

verus! {

/// A workspace section of a manifest.
#[derive(Debug)]
pub struct Workspace {
    pub root_path: PathWrapper,
    pub members: Vec<String>,
    pub dependencies: DependencyMap,
}

/// The transfer form of a workspace section.
#[derive(Debug, Clone)]
pub struct WorkspaceDto {
    pub members: Vec<String>,
    pub dependencies: Vec<(String, DependencyDto)>,
}

pub open spec fn msg_members_empty() -> Seq<char> {
    "工作空间成员列表不能为空"@
}

/// `prefix + name + infix + e` for each error `e`.
pub open spec fn labelled(
    prefix: Seq<char>,
    name: Seq<char>,
    infix: Seq<char>,
    errors: Seq<Seq<char>>,
) -> Seq<Seq<char>> {
    errors.map_values(|e: Seq<char>| prefix + name + infix + e)
}

/// The errors of each dependency entry, labelled with the entry's name.
pub open spec fn labelled_dep_errors(
    entries: Seq<(String, DependencySpec)>,
    prefix: Seq<char>,
    infix: Seq<char>,
) -> Seq<Seq<char>>
    decreases entries.len(),
{
    if entries.len() == 0 {
        seq![]
    } else {
        labelled_dep_errors(entries.drop_last(), prefix, infix) + labelled(
            prefix,
            entries.last().0@,
            infix,
            spec_errors(entries.last().1),
        )
    }
}

/// The errors that `Workspace::validate` reports, in order.
pub open spec fn workspace_errors(ws: Workspace) -> Seq<Seq<char>> {
    (if ws.members@.len() == 0 {
        seq![msg_members_empty()]
    } else {
        seq![]
    }) + labelled_dep_errors(ws.dependencies@, "工作空间依赖 '"@, "' 验证失败: "@)
}

/// Appends `prefix + name + infix + e` for each `e` in `errors`.
pub fn push_labelled(
    out: &mut Vec<String>,
    prefix: &str,
    name: &str,
    infix: &str,
    errors: &Vec<String>,
)
    ensures
        msgs(final(out)@) == msgs(old(out)@) + labelled(prefix@, name@, infix@, msgs(errors@)),
{
    let ghost start = msgs(out@);
    let head = crate::text::concat3(prefix, name, infix);
    let mut i: usize = 0;
    while i < errors.len()
        invariant
            i <= errors@.len(),
            head@ == prefix@ + name@ + infix@,
            msgs(out@) == start + labelled(prefix@, name@, infix@, msgs(errors@).subrange(0, i as int)),
        decreases errors@.len() - i,
    {
        let m = concat(head.as_str(), errors[i].as_str());
        push_msg(out, m);
        assert(labelled(prefix@, name@, infix@, msgs(errors@).subrange(0, i + 1)) =~= labelled(
            prefix@,
            name@,
            infix@,
            msgs(errors@).subrange(0, i as int),
        ).push(prefix@ + name@ + infix@ + errors@[i as int]@));
        i = i + 1;
    }
    assert(msgs(errors@).subrange(0, errors@.len() as int) =~= msgs(errors@));
}

/// Appends the labelled errors of every entry of `deps`.
pub fn push_dep_errors(out: &mut Vec<String>, deps: &DependencyMap, prefix: &str, infix: &str)
    ensures
        msgs(final(out)@) == msgs(old(out)@) + labelled_dep_errors(deps@, prefix@, infix@),
{
    let ghost start = msgs(out@);
    let mut i: usize = 0;
    while i < deps.len()
        invariant
            i <= deps@.len(),
            msgs(out@) == start + labelled_dep_errors(deps@.subrange(0, i as int), prefix@, infix@),
        decreases deps@.len() - i,
    {
        let (name, spec) = deps.entry(i);
        assert(deps@.subrange(0, i + 1).drop_last() =~= deps@.subrange(0, i as int));
        match spec.validate() {
            Ok(()) => {
                assert(labelled(prefix@, name@, infix@, spec_errors(*spec)) =~= Seq::<
                    Seq<char>,
                >::empty());
                assert(msgs(out@) =~= start + labelled_dep_errors(
                    deps@.subrange(0, i + 1),
                    prefix@,
                    infix@,
                ));
            },
            Err(es) => {
                push_labelled(out, prefix, name.as_str(), infix, &es);
            },
        }
        i = i + 1;
    }
    assert(deps@.subrange(0, deps@.len() as int) =~= deps@);
}

impl Workspace {
    /// The workspace with its root set to `root_path`.
    pub fn with_root_path(self, root_path: PathWrapper) -> (r: Self)
        ensures
            r.root_path == root_path,
            r.members == self.members,
            r.dependencies == self.dependencies,
    {
        let mut s = self;
        s.root_path = root_path;
        s
    }

    /// Checks the workspace; the errors are those of `workspace_errors`.
    pub fn validate(&self) -> (r: Result<(), Vec<String>>)
        ensures
            reports(r, workspace_errors(*self)),
    {
        let mut errors: Vec<String> = Vec::new();
        if self.members.len() == 0 {
            push_msg(&mut errors, "工作空间成员列表不能为空".to_owned());
        }
        push_dep_errors(&mut errors, &self.dependencies, "工作空间依赖 '", "' 验证失败: ");
        assert(msgs(errors@) =~= workspace_errors(*self));
        crate::models::dependency::into_report(errors)
    }

    /// A copy of the workspace.
    pub fn duplicate(&self) -> (r: Self)
        ensures
            r.root_path@ == self.root_path@,
            r.members@ == self.members@,
            r.dependencies@ == self.dependencies@,
    {
        Workspace {
            root_path: self.root_path.duplicate(),
            members: clone_strings(&self.members),
            dependencies: self.dependencies.duplicate(),
        }
    }

    /// The transfer form of the workspace.
    pub fn to_dto(&self) -> (r: WorkspaceDto)
        ensures
            r.members@ == self.members@,
            dto_pairs_match(r.dependencies@, self.dependencies@),
    {
        WorkspaceDto {
            members: clone_strings(&self.members),
            dependencies: map_to_dto_pairs(&self.dependencies),
        }
    }

    /// The workspace a transfer form describes, with an empty root path.
    pub fn from_dto(dto: WorkspaceDto) -> (r: Self)
        ensures
            r.root_path@ == Seq::<char>::empty(),
            r.members == dto.members,
            r.dependencies.as_map() == pairs_map(dto.dependencies@),
    {
        Workspace {
            root_path: PathWrapper::empty(),
            members: dto.members,
            dependencies: map_from_dto_pairs(dto.dependencies),
        }
    }
}

/// A copy of a list of strings.
pub fn clone_strings(v: &Vec<String>) -> (r: Vec<String>)
    ensures
        r@ == v@,
{
    let mut out: Vec<String> = Vec::new();
    let mut i: usize = 0;
    while i < v.len()
        invariant
            i <= v@.len(),
            out@ == v@.subrange(0, i as int),
        decreases v@.len() - i,
    {
        out.push(v[i].clone());
        assert(out@ =~= v@.subrange(0, i + 1));
        i = i + 1;
    }
    assert(out@ =~= v@);
    out
}

/// The transfer pairs carry the same names and the transfer forms of the same specifications.
pub open spec fn dto_pairs_match(
    pairs: Seq<(String, DependencyDto)>,
    entries: Seq<(String, DependencySpec)>,
) -> bool {
    pairs.len() == entries.len() && forall|i: int|
        0 <= i < pairs.len() ==> pairs[i].0@ == entries[i].0@ && #[trigger] pairs[i].1
            == crate::models::dependency::spec_to_dto(entries[i].1)
}

/// The map that inserting the transfer pairs in order builds.
pub open spec fn pairs_map(pairs: Seq<(String, DependencyDto)>) -> Map<Seq<char>, DependencySpec>
    decreases pairs.len(),
{
    if pairs.len() == 0 {
        Map::empty()
    } else {
        pairs_map(pairs.drop_last()).insert(
            pairs.last().0@,
            crate::models::dependency::spec_from_dto(pairs.last().1),
        )
    }
}

/// The transfer pairs of a dependency table, in order.
pub fn map_to_dto_pairs(m: &DependencyMap) -> (r: Vec<(String, DependencyDto)>)
    ensures
        dto_pairs_match(r@, m@),
{
    let mut out: Vec<(String, DependencyDto)> = Vec::new();
    let mut i: usize = 0;
    while i < m.len()
        invariant
            i <= m@.len(),
            dto_pairs_match(out@, m@.subrange(0, i as int)),
        decreases m@.len() - i,
    {
        let (name, spec) = m.entry(i);
        out.push((name.clone(), spec.to_dto()));
        i = i + 1;
    }
    assert(m@.subrange(0, m@.len() as int) =~= m@);
    out
}

/// The dependency table that inserting the transfer pairs in order builds.
pub fn map_from_dto_pairs(pairs: Vec<(String, DependencyDto)>) -> (r: DependencyMap)
    ensures
        r.as_map() == pairs_map(pairs@),
{
    let mut m = DependencyMap::new();
    let mut rest = pairs;
    let ghost all = rest@;
    let n = rest.len();
    assert(m.as_map() =~= Map::<Seq<char>, DependencySpec>::empty()) by {
        assert forall|k: Seq<char>| !#[trigger] m.as_map().dom().contains(k) by {}
    }
    let mut i: usize = 0;
    while i < n
        invariant
            n == all.len(),
            i <= n,
            rest@ == all.subrange(i as int, n as int),
            m.as_map() == pairs_map(all.subrange(0, i as int)),
        decreases n - i,
    {
        let (name, dto) = rest.remove(0);
        assert(all.subrange(0, i + 1).drop_last() =~= all.subrange(0, i as int));
        assert(rest@ =~= all.subrange(i + 1, n as int));
        let spec = DependencySpec::from(dto);
        m.insert(name, spec);
        i = i + 1;
    }
    assert(all.subrange(0, all.len() as int) =~= all);
    m
}

/// A dependency table written out in its transfer form and read back is the
/// same table.
pub proof fn law_dependency_table_roundtrip(
    pairs: Seq<(String, DependencyDto)>,
    entries: Seq<(String, DependencySpec)>,
)
    requires
        names_distinct(entries),
        dto_pairs_match(pairs, entries),
    ensures
        pairs_map(pairs) == entries_map(entries),
    decreases entries.len(),
{
    if entries.len() == 0 {
        assert(entries_map(entries) =~= Map::<Seq<char>, DependencySpec>::empty());
    } else {
        let n = entries.len() - 1;
        let pre = entries.drop_last();
        let last = entries[n];
        assert(names_distinct(pre));
        assert(dto_pairs_match(pairs.drop_last(), pre)) by {
            assert forall|i: int| 0 <= i < pre.len() implies pairs.drop_last()[i].0@ == pre[i].0@
                && #[trigger] pairs.drop_last()[i].1 == crate::models::dependency::spec_to_dto(
                pre[i].1,
            ) by {
                assert(pairs[i].1 == crate::models::dependency::spec_to_dto(entries[i].1));
            }
        }
        law_dependency_table_roundtrip(pairs.drop_last(), pre);
        assert forall|j: int| 0 <= j < pre.len() implies pre[j].0@ != last.0@ by {
            assert(entries[j].0@ != entries[n].0@);
        }
        lemma_entries_map_push(pre, last.0, last.1);
        assert(pre.push(last) =~= entries);
        assert(pairs[n].1 == crate::models::dependency::spec_to_dto(entries[n].1));
        crate::models::dependency::law_dependency_dto_roundtrip(last.1);
    }
}

} // verus!
