//! Libraries: the dependencies of a project as things to fetch or find.

use crate::models::dependency::{
    clone_opt_string, msgs, push_msg, reports, spec_errors, spec_get_version, spec_to_coordinate,
    spec_to_dto, DependencyDto, DependencySpec,
};
use crate::models::workspace::{labelled, push_labelled};
use crate::text::{concat, concat3, is_blank, is_blank_seq};
use crate::toolkit::os::PathWrapper;
use vstd::prelude::*;

verus! {

/// Where a library comes from.
#[derive(Debug, Clone, Copy, PartialEq, Eq, Structural)]
pub enum LibraryType {
    /// A Maven or Ivy repository.
    External,
    /// The local filesystem.
    Local,
    /// A member of the workspace.
    Workspace,
}

/// The transfer form of a library type.
#[derive(Debug, Clone, Copy, PartialEq, Eq, Structural)]
pub enum LibraryTypeDto {
    External,
    Local,
    Workspace,
}

/// A dependency as a library.
#[derive(Debug, Clone)]
pub struct Library {
    pub name: String,
    pub spec: DependencySpec,
    pub local_path: Option<PathWrapper>,
    pub available: bool,
    pub library_type: LibraryType,
}

/// The transfer form of a library.
#[derive(Debug, Clone)]
pub struct LibraryDto {
    pub name: String,
    pub spec: DependencyDto,
    pub local_path: Option<PathWrapper>,
    pub available: bool,
    pub library_type: LibraryTypeDto,
}

/// The type of the library a specification describes: a coordinate string
/// is external; a table is a workspace library when it says so, external
/// when it has a version and local otherwise.
pub open spec fn type_of_spec(spec: DependencySpec) -> LibraryType {
    match spec {
        DependencySpec::Simple(_) => LibraryType::External,
        DependencySpec::Detailed(d) => if d.workspace {
            LibraryType::Workspace
        } else if d.version is Some {
            LibraryType::External
        } else {
            LibraryType::Local
        },
    }
}

/// The library `Library::from_dependency_spec` builds.
pub open spec fn library_from_spec(name: String, spec: DependencySpec) -> Library {
    Library {
        name: name,
        spec: spec,
        local_path: None,
        available: false,
        library_type: type_of_spec(spec),
    }
}

/// The errors that `Library::validate` reports, in order; `path_exists` says
/// whether the local path is on disk.
pub open spec fn library_errors(lib: Library, path_exists: bool) -> Seq<Seq<char>> {
    (if is_blank_seq(lib.name@) {
        seq!["库名称不能为空"@]
    } else {
        seq![]
    }) + labelled("库 '"@, lib.name@, "' 依赖错误: "@, spec_errors(lib.spec)) + match lib.local_path {
        Some(p) => if !path_exists {
            seq!["库 '"@ + lib.name@ + "' 的本地路径不存在: "@ + p@]
        } else {
            seq![]
        },
        None => seq![],
    }
}

/// The display name: the name, followed by the coordinate in parentheses when there is one.
pub open spec fn display_name(lib: Library) -> Seq<char> {
    match spec_to_coordinate(lib.spec) {
        Some(c) => lib.name@ + " ("@ + c@ + ")"@,
        None => lib.name@,
    }
}

impl Library {
    /// The library a dependency specification describes.
    pub fn from_dependency_spec(name: String, spec: DependencySpec) -> (r: Self)
        ensures
            r == library_from_spec(name, spec),
    {
        let library_type = match &spec {
            DependencySpec::Simple(_) => LibraryType::External,
            DependencySpec::Detailed(detail) => {
                if detail.workspace {
                    LibraryType::Workspace
                } else if detail.version.is_some() {
                    LibraryType::External
                } else {
                    LibraryType::Local
                }
            },
        };
        Library { name, spec, local_path: None, available: false, library_type }
    }

    /// The library found at `path`, and so available.
    pub fn with_local_path(self, path: PathWrapper) -> (r: Self)
        ensures
            r.local_path == Some(path),
            r.available,
            r.name == self.name,
            r.spec == self.spec,
            r.library_type == self.library_type,
    {
        let mut s = self;
        s.local_path = Some(path);
        s.available = true;
        s
    }

    /// The library marked available.
    pub fn mark_available(self) -> (r: Self)
        ensures
            r.available,
            r.name == self.name,
            r.spec == self.spec,
            r.local_path == self.local_path,
            r.library_type == self.library_type,
    {
        let mut s = self;
        s.available = true;
        s
    }

    /// The coordinate string, for a library given by one.
    pub fn get_coordinate(&self) -> (r: Option<String>)
        ensures
            r == spec_to_coordinate(self.spec),
    {
        self.spec.to_coordinate()
    }

    /// Whether the library is a workspace member.
    pub fn is_workspace_library(&self) -> (b: bool)
        ensures
            b == (self.library_type == LibraryType::Workspace),
    {
        self.library_type == LibraryType::Workspace
    }

    /// Whether the library comes from a repository.
    pub fn is_external_library(&self) -> (b: bool)
        ensures
            b == (self.library_type == LibraryType::External),
    {
        self.library_type == LibraryType::External
    }

    /// Whether the library is on the local filesystem.
    pub fn is_local_library(&self) -> (b: bool)
        ensures
            b == (self.library_type == LibraryType::Local),
    {
        self.library_type == LibraryType::Local
    }

    /// The display name: `name (coordinate)`, or the name alone.
    pub fn get_display_name(&self) -> (r: String)
        ensures
            r@ == display_name(*self),
    {
        match self.get_coordinate() {
            Some(coord) => {
                let head = concat3(self.name.as_str(), " (", coord.as_str());
                concat(head.as_str(), ")")
            },
            None => self.name.clone(),
        }
    }

    /// The version of the specification.
    pub fn get_version(&self) -> (r: Option<&str>)
        ensures
            match r {
                Some(v) => spec_get_version(self.spec) == Some(v@),
                None => spec_get_version(self.spec) is None,
            },
    {
        self.spec.get_version()
    }

    /// Checks the library; `local_path_exists` says whether the local path is
    /// on disk. The errors are those of `library_errors`.
    pub fn validate(&self, local_path_exists: bool) -> (r: Result<(), Vec<String>>)
        ensures
            reports(r, library_errors(*self, local_path_exists)),
    {
        let mut errors: Vec<String> = Vec::new();
        if is_blank(self.name.as_str()) {
            push_msg(&mut errors, "库名称不能为空".to_owned());
        }
        let ghost before_spec = msgs(errors@);
        match self.spec.validate() {
            Ok(()) => {
                assert(labelled("库 '"@, self.name@, "' 依赖错误: "@, spec_errors(self.spec))
                    =~= Seq::<Seq<char>>::empty());
            },
            Err(es) => {
                push_labelled(&mut errors, "库 '", self.name.as_str(), "' 依赖错误: ", &es);
            },
        }
        match &self.local_path {
            Some(path) => {
                if !local_path_exists {
                    let head = concat3("库 '", self.name.as_str(), "' 的本地路径不存在: ");
                    push_msg(&mut errors, concat(head.as_str(), path.as_path()));
                }
            },
            None => {},
        }
        assert(msgs(errors@) =~= library_errors(*self, local_path_exists));
        crate::models::dependency::into_report(errors)
    }

    /// The transfer form of the library.
    pub fn to_dto(&self) -> (r: LibraryDto)
        ensures
            library_written_as(*self, r),
    {
        LibraryDto {
            name: self.name.clone(),
            spec: self.spec.to_dto(),
            local_path: match &self.local_path {
                Some(p) => Some(p.duplicate()),
                None => None,
            },
            available: self.available,
            library_type: self.library_type.to_dto(),
        }
    }

    /// The library a transfer form describes.
    pub fn from_dto(dto: LibraryDto) -> (r: Self)
        ensures
            library_read_as(dto, r),
    {
        Library {
            name: dto.name,
            spec: DependencySpec::from(dto.spec),
            local_path: dto.local_path,
            available: dto.available,
            library_type: LibraryType::from(dto.library_type),
        }
    }
}

pub open spec fn type_to_dto(t: LibraryType) -> LibraryTypeDto {
    match t {
        LibraryType::External => LibraryTypeDto::External,
        LibraryType::Local => LibraryTypeDto::Local,
        LibraryType::Workspace => LibraryTypeDto::Workspace,
    }
}

pub open spec fn type_from_dto(t: LibraryTypeDto) -> LibraryType {
    match t {
        LibraryTypeDto::External => LibraryType::External,
        LibraryTypeDto::Local => LibraryType::Local,
        LibraryTypeDto::Workspace => LibraryType::Workspace,
    }
}

impl LibraryType {
    /// The transfer form of the library type.
    pub fn to_dto(&self) -> (r: LibraryTypeDto)
        ensures
            r == type_to_dto(*self),
    {
        match self {
            LibraryType::External => LibraryTypeDto::External,
            LibraryType::Local => LibraryTypeDto::Local,
            LibraryType::Workspace => LibraryTypeDto::Workspace,
        }
    }
}

impl From<LibraryTypeDto> for LibraryType {
    fn from(dto: LibraryTypeDto) -> (r: Self) {
        match dto {
            LibraryTypeDto::External => LibraryType::External,
            LibraryTypeDto::Local => LibraryType::Local,
            LibraryTypeDto::Workspace => LibraryType::Workspace,
        }
    }
}

impl vstd::std_specs::convert::FromSpecImpl<LibraryTypeDto> for LibraryType {
    open spec fn obeys_from_spec() -> bool {
        true
    }

    open spec fn from_spec(v: LibraryTypeDto) -> LibraryType {
        type_from_dto(v)
    }
}

impl From<LibraryDto> for Library {
    fn from(dto: LibraryDto) -> (r: Self) {
        Library::from_dto(dto)
    }
}

impl vstd::std_specs::convert::FromSpecImpl<LibraryDto> for Library {
    open spec fn obeys_from_spec() -> bool {
        true
    }

    open spec fn from_spec(v: LibraryDto) -> Library {
        Library {
            name: v.name,
            spec: crate::models::dependency::spec_from_dto(v.spec),
            local_path: v.local_path,
            available: v.available,
            library_type: type_from_dto(v.library_type),
        }
    }
}

impl From<(String, DependencySpec)> for Library {
    fn from(pair: (String, DependencySpec)) -> (r: Self) {
        let (name, spec) = pair;
        Library::from_dependency_spec(name, spec)
    }
}

impl vstd::std_specs::convert::FromSpecImpl<(String, DependencySpec)> for Library {
    open spec fn obeys_from_spec() -> bool {
        true
    }

    open spec fn from_spec(v: (String, DependencySpec)) -> Library {
        library_from_spec(v.0, v.1)
    }
}

/// A library is of exactly one type, and the three predicates say which.
pub proof fn law_library_type_exclusive(name: String, spec: DependencySpec)
    ensures
        ({
            let t = library_from_spec(name, spec).library_type;
            (t == LibraryType::Workspace) as int + (t == LibraryType::External) as int + (t
                == LibraryType::Local) as int == 1
        }),
        spec.is_workspace_dependency_spec() ==> library_from_spec(name, spec).library_type
            == LibraryType::Workspace,
{
}

impl DependencySpec {
    /// The specification refers to the workspace's own entry.
    pub open spec fn is_workspace_dependency_spec(self) -> bool {
        self matches DependencySpec::Detailed(d) && d.workspace
    }
}

/// `dto` is the transfer form `Library::to_dto` writes for `lib`.
pub open spec fn library_written_as(lib: Library, dto: LibraryDto) -> bool {
    &&& dto.name == lib.name
    &&& dto.spec == spec_to_dto(lib.spec)
    &&& (dto.local_path is Some <==> lib.local_path is Some)
    &&& (dto.local_path matches Some(p) ==> p@ == lib.local_path->0@)
    &&& dto.available == lib.available
    &&& dto.library_type == type_to_dto(lib.library_type)
}

/// `lib` is the library `Library::from_dto` reads from `dto`.
pub open spec fn library_read_as(dto: LibraryDto, lib: Library) -> bool {
    &&& lib.name == dto.name
    &&& lib.spec == crate::models::dependency::spec_from_dto(dto.spec)
    &&& lib.local_path == dto.local_path
    &&& lib.available == dto.available
    &&& lib.library_type == type_from_dto(dto.library_type)
}

/// A library written out to its transfer form and read back is the same
/// library: name, specification, local path, availability and type.
pub proof fn law_library_dto_roundtrip(lib: Library, dto: LibraryDto, back: Library)
    requires
        library_written_as(lib, dto),
        library_read_as(dto, back),
    ensures
        back.name == lib.name,
        back.spec == lib.spec,
        back.local_path is Some <==> lib.local_path is Some,
        back.local_path matches Some(p) ==> p@ == lib.local_path->0@,
        back.available == lib.available,
        back.library_type == lib.library_type,
{
    crate::models::dependency::law_dependency_dto_roundtrip(lib.spec);
}

} // verus!
