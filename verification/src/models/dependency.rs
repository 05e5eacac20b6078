//! Dependency specifications as written in `project.toml`.

use crate::text::{
    char_is_alphanumeric, concat3, contains_seq, contains_str, count_char, count_of, is_alphanumeric,
    is_blank, is_blank_seq, last_index_of, rfind_char, split_seq, substring,
};
use vstd::prelude::*;

verus! {

/// A dependency value: either a coordinate / version string, or a table.
#[derive(Debug, Clone, PartialEq)]
pub enum DependencySpec {
    Simple(String),
    Detailed(DependencyDetail),
}

/// The table form of a dependency value.
#[derive(Debug, Clone, PartialEq)]
pub struct DependencyDetail {
    pub version: Option<String>,
    pub workspace: bool,
}

/// The transfer form of a dependency value (what the manifest reader produces).
#[derive(Debug, Clone)]
pub enum DependencyDto {
    Simple(String),
    Detailed(DependencyDetailDto),
}

/// The transfer form of a dependency table.
#[derive(Debug, Clone)]
pub struct DependencyDetailDto {
    pub version: Option<String>,
    pub workspace: bool,
}

// ───────────────────────────── version strings ─────────────────────────────

/// A character allowed in a version string.
pub open spec fn version_char(c: char) -> bool {
    char_is_alphanumeric(c) || c == '.' || c == '-' || c == '_'
}

/// A version string: non-empty, made of alphanumerics, `.`, `-` and `_`.
pub open spec fn valid_version(v: Seq<char>) -> bool {
    v.len() > 0 && forall|i: int| 0 <= i < v.len() ==> version_char(#[trigger] v[i])
}

/// Whether `version` is a well-formed version string.
pub fn is_valid_version(version: &str) -> (b: bool)
    ensures
        b == valid_version(version@),
{
    let n = version.unicode_len();
    if n == 0 {
        return false;
    }
    let mut i: usize = 0;
    while i < n
        invariant
            n == version@.len(),
            i <= n,
            forall|j: int| 0 <= j < i ==> version_char(#[trigger] version@[j]),
        decreases n - i,
    {
        let c = version.get_char(i);
        if !(is_alphanumeric(c) || c == '.' || c == '-' || c == '_') {
            assert(!version_char(version@[i as int]));
            return false;
        }
        i = i + 1;
    }
    true
}

// ───────────────────────────── messages ─────────────────────────────

pub open spec fn msg_dep_string_empty() -> Seq<char> {
    "依赖字符串不能为空"@
}

pub open spec fn msg_group_artifact_empty() -> Seq<char> {
    "依赖的 group:artifact 部分不能为空"@
}

pub open spec fn msg_version_empty() -> Seq<char> {
    "依赖版本不能为空"@
}

pub open spec fn msg_workspace_with_version() -> Seq<char> {
    "工作空间依赖不应指定版本"@
}

pub open spec fn msg_invalid_version(v: Seq<char>) -> Seq<char> {
    "依赖版本格式无效: '"@ + v + "'"@
}

pub open spec fn msg_invalid_format(d: Seq<char>) -> Seq<char> {
    "依赖格式无效 '"@ + d + "'，应为 'group:artifact:version'"@
}

fn invalid_version_message(v: &str) -> (r: String)
    ensures
        r@ == msg_invalid_version(v@),
{
    concat3("依赖版本格式无效: '", v, "'")
}

// ───────────────────────────── validation ─────────────────────────────

/// The version check of a version string, as an error list.
pub open spec fn version_errors(v: Seq<char>) -> Seq<Seq<char>> {
    if valid_version(v) {
        seq![]
    } else {
        seq![msg_invalid_version(v)]
    }
}

/// The errors of a coordinate string `group:artifact:version` (or of a bare version).
pub open spec fn simple_errors(d: Seq<char>) -> Seq<Seq<char>> {
    if is_blank_seq(d) {
        seq![msg_dep_string_empty()]
    } else if !contains_seq(d, seq![':']) {
        version_errors(d)
    } else if count_of(d, ':') < 2 {
        seq![msg_invalid_format(d)]
    } else {
        let p = last_index_of(d, ':')->0;
        (if is_blank_seq(d.subrange(0, p)) {
            seq![msg_group_artifact_empty()]
        } else {
            seq![]
        }) + version_errors(d.subrange(p + 1, d.len() as int))
    }
}

/// The errors of a dependency table.
pub open spec fn detailed_errors(version: Option<String>, workspace: bool) -> Seq<Seq<char>> {
    (match version {
        Some(v) => if is_blank_seq(v@) {
            seq![msg_version_empty()]
        } else {
            version_errors(v@)
        },
        None => seq![],
    }) + (if workspace && version is Some {
        seq![msg_workspace_with_version()]
    } else {
        seq![]
    })
}

/// The errors that `DependencySpec::validate` reports, in order.
pub open spec fn spec_errors(spec: DependencySpec) -> Seq<Seq<char>> {
    match spec {
        DependencySpec::Simple(d) => simple_errors(d@),
        DependencySpec::Detailed(det) => detailed_errors(det.version, det.workspace),
    }
}

/// The views of a list of messages.
pub open spec fn msgs(v: Seq<String>) -> Seq<Seq<char>> {
    v.map_values(|x: String| x@)
}

/// A validation outcome agrees with an expected list of errors: `Ok` exactly
/// when there is none, and otherwise the same messages in the same order.
pub open spec fn reports(r: Result<(), Vec<String>>, errors: Seq<Seq<char>>) -> bool {
    match r {
        Ok(()) => errors.len() == 0,
        Err(es) => errors.len() > 0 && msgs(es@) == errors,
    }
}

/// Appends `m` to a list of messages.
pub fn push_msg(out: &mut Vec<String>, m: String)
    ensures
        msgs(final(out)@) == msgs(old(out)@).push(m@),
{
    let ghost before = out@;
    out.push(m);
    assert(msgs(out@) =~= msgs(before).push(m@));
}

/// Turns a list of messages into a validation outcome.
pub fn into_report(errors: Vec<String>) -> (r: Result<(), Vec<String>>)
    ensures
        reports(r, msgs(errors@)),
{
    if errors.len() == 0 {
        Ok(())
    } else {
        Err(errors)
    }
}

impl DependencySpec {
    /// Checks the specification; the errors are those of `spec_errors`.
    pub fn validate(&self) -> (r: Result<(), Vec<String>>)
        ensures
            reports(r, spec_errors(*self)),
    {
        let mut errors: Vec<String> = Vec::new();
        match self {
            DependencySpec::Simple(dep_str) => {
                let d = dep_str.as_str();
                if is_blank(d) {
                    push_msg(&mut errors, "依赖字符串不能为空".to_owned());
                } else if !contains_str(d, ":") {
                    proof {
                        reveal_strlit(":");
                    }
                    assert(":"@ =~= seq![':']);
                    if !is_valid_version(d) {
                        push_msg(&mut errors, invalid_version_message(d));
                    }
                } else if count_char(d, ':') < 2 {
                    proof {
                        reveal_strlit(":");
                    }
                    assert(":"@ =~= seq![':']);
                    push_msg(
                        &mut errors,
                        concat3("依赖格式无效 '", d, "'，应为 'group:artifact:version'"),
                    );
                } else {
                    proof {
                        reveal_strlit(":");
                    }
                    assert(":"@ =~= seq![':']);
                    let n = d.unicode_len();
                    match rfind_char(d, ':') {
                        Some(p) => {
                            let ga = substring(d, 0, p);
                            let version = substring(d, p + 1, n);
                            if is_blank(ga.as_str()) {
                                push_msg(&mut errors, "依赖的 group:artifact 部分不能为空".to_owned());
                            }
                            if !is_valid_version(version.as_str()) {
                                push_msg(&mut errors, invalid_version_message(version.as_str()));
                            }
                        },
                        None => {
                            proof {
                                lemma_count_without_last_index(d@, ':');
                            }
                        },
                    }
                }
            },
            DependencySpec::Detailed(detail) => {
                match &detail.version {
                    Some(version) => {
                        if is_blank(version.as_str()) {
                            push_msg(&mut errors, "依赖版本不能为空".to_owned());
                        } else if !is_valid_version(version.as_str()) {
                            push_msg(&mut errors, invalid_version_message(version.as_str()));
                        }
                    },
                    None => {},
                }
                if detail.workspace && detail.version.is_some() {
                    push_msg(&mut errors, "工作空间依赖不应指定版本".to_owned());
                }
            },
        }
        proof {
            assert(msgs(errors@) =~= spec_errors(*self));
        }
        into_report(errors)
    }

    /// The coordinate string of a simple specification.
    pub fn to_coordinate(&self) -> (r: Option<String>)
        ensures
            r == spec_to_coordinate(*self),
    {
        match self {
            DependencySpec::Simple(coord) => Some(coord.clone()),
            DependencySpec::Detailed(_) => None,
        }
    }

    /// Whether the specification refers to the workspace's own entry.
    pub fn is_workspace_dependency(&self) -> (b: bool)
        ensures
            b == (self matches DependencySpec::Detailed(d) && d.workspace),
    {
        match self {
            DependencySpec::Simple(_) => false,
            DependencySpec::Detailed(detail) => detail.workspace,
        }
    }

    /// The version: the third `:`-separated piece of a coordinate string, or
    /// the `version` of a table.
    pub fn get_version(&self) -> (r: Option<&str>)
        ensures
            match r {
                Some(v) => spec_get_version(*self) == Some(v@),
                None => spec_get_version(*self) is None,
            },
    {
        match self {
            DependencySpec::Simple(coord) => {
                proof {
                    reveal_strlit(":");
                }
                assert(":"@ =~= seq![':']);
                nth_piece(coord.as_str(), ":", 2)
            },
            DependencySpec::Detailed(detail) => match &detail.version {
                Some(v) => Some(v.as_str()),
                None => None,
            },
        }
    }

    /// The transfer form of the specification.
    pub fn to_dto(&self) -> (r: DependencyDto)
        ensures
            r == spec_to_dto(*self),
    {
        match self {
            DependencySpec::Simple(s) => DependencyDto::Simple(s.clone()),
            DependencySpec::Detailed(d) => DependencyDto::Detailed(
                DependencyDetailDto { version: clone_opt_string(&d.version), workspace: d.workspace },
            ),
        }
    }

    /// A copy with the same contents.
    pub fn duplicate(&self) -> (r: DependencySpec)
        ensures
            r == *self,
    {
        match self {
            DependencySpec::Simple(s) => DependencySpec::Simple(s.clone()),
            DependencySpec::Detailed(d) => DependencySpec::Detailed(
                DependencyDetail { version: clone_opt_string(&d.version), workspace: d.workspace },
            ),
        }
    }
}

/// A copy of an optional string.
pub fn clone_opt_string(v: &Option<String>) -> (r: Option<String>)
    ensures
        r == *v,
{
    match v {
        Some(s) => Some(s.clone()),
        None => None,
    }
}

pub open spec fn spec_to_coordinate(spec: DependencySpec) -> Option<String> {
    match spec {
        DependencySpec::Simple(c) => Some(c),
        DependencySpec::Detailed(_) => None,
    }
}

pub open spec fn spec_get_version(spec: DependencySpec) -> Option<Seq<char>> {
    match spec {
        DependencySpec::Simple(c) => {
            let parts = split_seq(c@, seq![':']);
            if parts.len() > 2 {
                Some(parts[2])
            } else {
                None
            }
        },
        DependencySpec::Detailed(d) => match d.version {
            Some(v) => Some(v@),
            None => None,
        },
    }
}

pub open spec fn spec_to_dto(spec: DependencySpec) -> DependencyDto {
    match spec {
        DependencySpec::Simple(s) => DependencyDto::Simple(s),
        DependencySpec::Detailed(d) => DependencyDto::Detailed(
            DependencyDetailDto { version: d.version, workspace: d.workspace },
        ),
    }
}

pub open spec fn spec_from_dto(dto: DependencyDto) -> DependencySpec {
    match dto {
        DependencyDto::Simple(s) => DependencySpec::Simple(s),
        DependencyDto::Detailed(d) => DependencySpec::Detailed(
            DependencyDetail { version: d.version, workspace: d.workspace },
        ),
    }
}

impl From<DependencyDto> for DependencySpec {
    fn from(dto: DependencyDto) -> (r: Self) {
        match dto {
            DependencyDto::Simple(s) => DependencySpec::Simple(s),
            DependencyDto::Detailed(d) => DependencySpec::Detailed(
                DependencyDetail { version: d.version, workspace: d.workspace },
            ),
        }
    }
}

impl vstd::std_specs::convert::FromSpecImpl<DependencyDto> for DependencySpec {
    open spec fn obeys_from_spec() -> bool {
        true
    }

    open spec fn from_spec(v: DependencyDto) -> DependencySpec {
        spec_from_dto(v)
    }
}

impl From<DependencySpec> for DependencyDto {
    fn from(spec: DependencySpec) -> (r: Self) {
        spec.to_dto()
    }
}

impl vstd::std_specs::convert::FromSpecImpl<DependencySpec> for DependencyDto {
    open spec fn obeys_from_spec() -> bool {
        true
    }

    open spec fn from_spec(v: DependencySpec) -> DependencyDto {
        spec_to_dto(v)
    }
}

/// Converting a specification to its transfer form and back gives it back unchanged.
pub proof fn law_dependency_dto_roundtrip(spec: DependencySpec)
    ensures
        spec_from_dto(spec_to_dto(spec)) == spec,
{
}

/// A string with at least one `c` has a last position of `c`.
pub proof fn lemma_count_without_last_index(s: Seq<char>, c: char)
    requires
        last_index_of(s, c) is None,
    ensures
        count_of(s, c) == 0,
    decreases s.len(),
{
    if s.len() > 0 {
        lemma_count_without_last_index(s.drop_last(), c);
    }
}

/// The `k`-th piece of `s` split at `pat`, borrowed from `s`.
pub fn nth_piece<'a>(s: &'a str, pat: &str, k: usize) -> (r: Option<&'a str>)
    requires
        pat@.len() > 0,
    ensures
        match r {
            Some(x) => k < split_seq(s@, pat@).len() && x@ == split_seq(s@, pat@)[k as int],
            None => k >= split_seq(s@, pat@).len(),
        },
{
    let n = s.unicode_len();
    let m = pat.unicode_len();
    let mut start: usize = 0;
    let mut idx: usize = 0;
    loop
        invariant
            n == s@.len(),
            m == pat@.len(),
            m > 0,
            start <= n,
            idx <= k,
            split_seq(s@, pat@).len() == idx + crate::text::split_from(s@, pat@, start as int).len(),
            forall|j: int|
                0 <= j < crate::text::split_from(s@, pat@, start as int).len() ==> split_seq(
                    s@,
                    pat@,
                )[idx + j] == #[trigger] crate::text::split_from(s@, pat@, start as int)[j],
        decreases n - start,
    {
        proof {
            crate::text::lemma_find_from(s@, pat@, start as int);
        }
        let ghost rest = crate::text::split_from(s@, pat@, start as int);
        match crate::text::find_from_exec(s, pat, start) {
            None => {
                assert(rest.len() == 1);
                if idx == k {
                    assert(rest[0] == s@.subrange(start as int, n as int));
                    return Some(s.substring_char(start, n));
                }
                return None;
            },
            Some(i) => {
                let ghost tail = crate::text::split_from(s@, pat@, i + m);
                assert(rest =~= seq![s@.subrange(start as int, i as int)] + tail);
                if idx == k {
                    assert(rest[0] == s@.subrange(start as int, i as int));
                    return Some(s.substring_char(start, i));
                }
                assert forall|j: int| 0 <= j < tail.len() implies split_seq(s@, pat@)[(idx + 1)
                    + j] == #[trigger] tail[j] by {
                    assert(rest[j + 1] == tail[j]);
                }
                idx = idx + 1;
                start = i + m;
            },
        }
    }
}

/// A specification passes validation exactly when: a coordinate string is not
/// blank and is either a version (no `:`) or has at least two `:` with a
/// non-blank part before the last one and a version after it; a table's
/// version, if any, is not blank and is a version, and it does not also defer
/// to the workspace. A version is non-empty and made of alphanumerics, `.`,
/// `-` and `_`.
pub proof fn law_validation_by_characters(spec: DependencySpec)
    ensures
        spec_errors(spec).len() == 0 <==> match spec {
            DependencySpec::Simple(d) => {
                &&& !is_blank_seq(d@)
                &&& if !contains_seq(d@, seq![':']) {
                    valid_version(d@)
                } else {
                    let p = last_index_of(d@, ':')->0;
                    &&& count_of(d@, ':') >= 2
                    &&& !is_blank_seq(d@.subrange(0, p))
                    &&& valid_version(d@.subrange(p + 1, d@.len() as int))
                }
            },
            DependencySpec::Detailed(det) => {
                &&& det.version matches Some(v) ==> !is_blank_seq(v@) && valid_version(v@)
                &&& !(det.workspace && det.version is Some)
            },
        },
{
}

} // verus!
