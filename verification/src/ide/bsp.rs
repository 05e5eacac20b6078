//! The layout of the BSP setup: which directories are cleaned, where the
//! sources are, and the launcher command and options written for the IDE.

use crate::deps::{coord_of, dep_views, Dependency};
use crate::text::{
    concat, concat3, join_seq, join_strings, last_word, last_word_of, replace_seq, replace_str, views,
};
use crate::toolkit::json::{
    fields_of, field_set, keyable, law_field_reads_back, lemma_put_back, string_array, take_value,
    value_at, with_field, JsonValue,
};
use crate::toolkit::os::{path_extension, path_join, PathWrapper};
use vstd::prelude::*;

verus! {

/// Where a member's sources are: `bsp/source_dir` for the project itself
/// (empty member name), else `bsp/member/source_dir`.
pub open spec fn member_source_path(bsp: Seq<char>, member: Seq<char>, source_dir: Seq<char>) -> Seq<
    char,
> {
    if member.len() == 0 {
        path_join(bsp, source_dir)
    } else {
        path_join(path_join(bsp, member), source_dir)
    }
}

/// Where a member's sources are.
pub fn source_path(bsp_dir: &PathWrapper, member: &str, source_dir: &str) -> (r: PathWrapper)
    ensures
        r@ == member_source_path(bsp_dir@, member@, source_dir@),
{
    if member.unicode_len() == 0 {
        bsp_dir.join(source_dir)
    } else {
        bsp_dir.join(member).join(source_dir)
    }
}

/// The source glob of a member: `source_dir/**/*.scala`, under the member's
/// directory when it has one.
pub open spec fn source_glob(member: Seq<char>, source_dir: Seq<char>) -> Seq<char> {
    (if member.len() == 0 {
        source_dir
    } else {
        member + "/"@ + source_dir
    }) + "/**/*.scala"@
}

/// The pair views of a list of `(member, source directory)` pairs.
pub open spec fn dir_pairs(v: Seq<(String, String)>) -> Seq<(Seq<char>, Seq<char>)> {
    v.map_values(|p: (String, String)| (p.0@, p.1@))
}

/// The source globs of all members, in order.
pub fn scalac_options(source_dirs: &Vec<(String, String)>) -> (r: Vec<String>)
    ensures
        r@.len() == source_dirs@.len(),
        forall|i: int|
            0 <= i < r@.len() ==> #[trigger] r@[i]@ == source_glob(
                source_dirs@[i].0@,
                source_dirs@[i].1@,
            ),
{
    let mut out: Vec<String> = Vec::new();
    let mut i: usize = 0;
    while i < source_dirs.len()
        invariant
            i <= source_dirs@.len(),
            out@.len() == i,
            forall|j: int|
                0 <= j < i ==> #[trigger] out@[j]@ == source_glob(
                    source_dirs@[j].0@,
                    source_dirs@[j].1@,
                ),
        decreases source_dirs@.len() - i,
    {
        let (m, sd) = (&source_dirs[i].0, &source_dirs[i].1);
        let base = if m.as_str().unicode_len() == 0 {
            sd.clone()
        } else {
            concat3(m.as_str(), "/", sd.as_str())
        };
        out.push(concat(base.as_str(), "/**/*.scala"));
        i = i + 1;
    }
    out
}

/// The IDE options text: the template with `{scalac_option}` replaced by the
/// globs joined with `","`.
pub fn options_text(template: &str, globs: &Vec<String>) -> (r: String)
    ensures
        r@ == replace_seq(template@, "{scalac_option}"@, join_seq(views(globs@), "\",\""@)),
{
    proof {
        reveal_strlit("{scalac_option}");
    }
    let joined = join_strings(globs, "\",\"");
    replace_str(template, "{scalac_option}", joined.as_str())
}

/// The coordinates of the dependencies, in order.
pub fn dependency_coords(deps: &Vec<Dependency>) -> (r: Vec<String>)
    ensures
        r@.len() == deps@.len(),
        forall|i: int| 0 <= i < r@.len() ==> #[trigger] r@[i]@ == coord_of(deps@[i].view()),
{
    let mut out: Vec<String> = Vec::new();
    let mut i: usize = 0;
    while i < deps.len()
        invariant
            i <= deps@.len(),
            out@.len() == i,
            forall|j: int| 0 <= j < i ==> #[trigger] out@[j]@ == coord_of(deps@[j].view()),
        decreases deps@.len() - i,
    {
        out.push(deps[i].coord());
        i = i + 1;
    }
    out
}

/// The launcher command written for the IDE: scala-cli's `bsp` subcommand
/// with the option files under the build directory, then the Scala files.
pub fn bsp_argv(scala_cli_path: &str, scala_build_dir: &str, scala_files: &Vec<String>) -> (r: Vec<
    String,
>)
    ensures
        views(r@) == seq![
            scala_cli_path@,
            "bsp"@,
            "--json-options"@,
            scala_build_dir@ + "/ide-options-v2.json"@,
            "--json-launcher-options"@,
            scala_build_dir@ + "/ide-launcher-options.json"@,
            "--envs-file"@,
            scala_build_dir@ + "/ide-envs.json"@,
        ] + views(scala_files@),
{
    let mut argv: Vec<String> = Vec::new();
    argv.push(scala_cli_path.to_owned());
    argv.push("bsp".to_owned());
    argv.push("--json-options".to_owned());
    argv.push(concat(scala_build_dir, "/ide-options-v2.json"));
    argv.push("--json-launcher-options".to_owned());
    argv.push(concat(scala_build_dir, "/ide-launcher-options.json"));
    argv.push("--envs-file".to_owned());
    argv.push(concat(scala_build_dir, "/ide-envs.json"));
    let ghost a = views(argv@);
    let mut i: usize = 0;
    while i < scala_files.len()
        invariant
            i <= scala_files@.len(),
            a.len() == 8,
            argv@.len() == 8 + i,
            forall|k: int| 0 <= k < 8 ==> #[trigger] argv@[k]@ == a[k],
            forall|k: int| 0 <= k < i ==> #[trigger] argv@[8 + k]@ == scala_files@[k]@,
        decreases scala_files@.len() - i,
    {
        argv.push(scala_files[i].clone());
        i = i + 1;
    }
    assert(views(argv@) =~= a + views(scala_files@)) by {
        assert forall|k: int| 0 <= k < argv@.len() implies views(argv@)[k] == (a + views(
            scala_files@,
        ))[k] by {
            if k >= 8 {
                assert(argv@[8 + (k - 8)]@ == scala_files@[k - 8]@);
            }
        }
    }
    argv
}

/// A Scala source file: its extension is `scala`.
pub fn is_scala_file(path: &PathWrapper) -> (b: bool)
    ensures
        b == (path_extension(path@) == Some("scala"@)),
{
    match path.extension() {
        Some(e) => crate::text::eq_str(e.as_str(), "scala"),
        None => false,
    }
}

/// How a Scala file is listed for the IDE: relative to the BSP directory when
/// it lies inside it, else as it is.
pub fn listed_file(file: &PathWrapper, bsp_dir: &PathWrapper) -> (r: String)
    ensures
        r@ == match crate::toolkit::os::path_strip_prefix(file@, bsp_dir@) {
            Some(rest) => rest,
            None => file@,
        },
{
    file.relative_to(bsp_dir).to_string_lossy()
}

/// The directories cleaned before a BSP setup: `.bsp` and `.scala-build` in
/// the BSP directory, then in each member's source path.
pub fn cleanup_paths(bsp_dir: &PathWrapper, source_dirs: &Vec<(String, String)>) -> (r: Vec<
    PathWrapper,
>)
    ensures
        r@.len() == 2 + 2 * source_dirs@.len(),
        r@[0]@ == path_join(bsp_dir@, ".bsp"@),
        r@[1]@ == path_join(bsp_dir@, ".scala-build"@),
        forall|i: int|
            0 <= i < source_dirs@.len() ==> (#[trigger] r@[2 + 2 * i])@ == path_join(
                member_source_path(bsp_dir@, source_dirs@[i].0@, source_dirs@[i].1@),
                ".bsp"@,
            ) && r@[3 + 2 * i]@ == path_join(
                member_source_path(bsp_dir@, source_dirs@[i].0@, source_dirs@[i].1@),
                ".scala-build"@,
            ),
{
    let mut out: Vec<PathWrapper> = Vec::new();
    out.push(bsp_dir.join(".bsp"));
    out.push(bsp_dir.join(".scala-build"));
    let mut i: usize = 0;
    while i < source_dirs.len()
        invariant
            i <= source_dirs@.len(),
            out@.len() == 2 + 2 * i,
            out@[0]@ == path_join(bsp_dir@, ".bsp"@),
            out@[1]@ == path_join(bsp_dir@, ".scala-build"@),
            forall|j: int|
                0 <= j < i ==> (#[trigger] out@[2 + 2 * j])@ == path_join(
                    member_source_path(bsp_dir@, source_dirs@[j].0@, source_dirs@[j].1@),
                    ".bsp"@,
                ) && out@[3 + 2 * j]@ == path_join(
                    member_source_path(bsp_dir@, source_dirs@[j].0@, source_dirs@[j].1@),
                    ".scala-build"@,
                ),
        decreases source_dirs@.len() - i,
    {
        let sp = source_path(bsp_dir, source_dirs[i].0.as_str(), source_dirs[i].1.as_str());
        let ghost before = out@;
        out.push(sp.join(".bsp"));
        out.push(sp.join(".scala-build"));
        assert forall|j: int| 0 <= j < i + 1 implies (#[trigger] out@[2 + 2 * j])@ == path_join(
            member_source_path(bsp_dir@, source_dirs@[j].0@, source_dirs@[j].1@),
            ".bsp"@,
        ) && out@[3 + 2 * j]@ == path_join(
            member_source_path(bsp_dir@, source_dirs@[j].0@, source_dirs@[j].1@),
            ".scala-build"@,
        ) by {
            if j < i {
                assert(out@[2 + 2 * j] == before[2 + 2 * j]);
                assert(out@[3 + 2 * j] == before[3 + 2 * j]);
            }
        }
        i = i + 1;
    }
    out
}

/// The scala-cli version written for the IDE: the last word of what
/// `scala-cli --version` printed when it succeeded, else `1.11.0`.
pub fn scala_cli_version(success: bool, stdout: &str) -> (r: String)
    ensures
        r@ == (if success && last_word_of(stdout@) is Some {
            last_word_of(stdout@)->0
        } else {
            "1.11.0"@
        }),
{
    if success {
        match last_word(stdout) {
            Some(w) => return w,
            None => {},
        }
    }
    "1.11.0".to_owned()
}

/// The IDE options with the dependencies' coordinates under
/// `dependencies.dependency`, as writing `options["dependencies"]["dependency"]`
/// does on a JSON value: where no field is there it is added, and null becomes
/// an object first. None where the options or their `dependencies` are neither
/// an object nor null, which cannot be written into by key.
pub fn dependency_options(options: JsonValue, coords: Vec<String>) -> (r: Option<JsonValue>)
    ensures
        r is Some <==> keyable(options) && keyable(value_at(options, "dependencies"@)),
        r matches Some(out) ==> {
            let deps_before = value_at(options, "dependencies"@);
            let deps_after = value_at(out, "dependencies"@);
            &&& out is Object
            &&& field_set(fields_of(options), "dependencies"@, deps_after, fields_of(out))
            &&& deps_after is Object
            &&& field_set(
                fields_of(deps_before),
                "dependency"@,
                value_at(deps_after, "dependency"@),
                fields_of(deps_after),
            )
            &&& value_at(deps_after, "dependency"@) matches JsonValue::Array(vs) && vs@.len()
                == coords@.len() && forall|j: int|
                0 <= j < coords@.len() ==> #[trigger] vs@[j] == JsonValue::Str(coords@[j])
        },
{
    let ghost opts = options;
    let outer_ok = match &options {
        JsonValue::Null => true,
        JsonValue::Object(_) => true,
        _ => false,
    };
    if !outer_ok {
        return None;
    }
    let (rest, deps) = take_value(options, "dependencies");
    let inner_ok = match &deps {
        JsonValue::Null => true,
        JsonValue::Object(_) => true,
        _ => false,
    };
    if !inner_ok {
        return None;
    }
    let ghost deps0 = deps;
    let arr = string_array(coords);
    let ghost arr0 = arr;
    let new_deps = with_field(deps, "dependency", arr);
    let ghost nd = new_deps;
    let ghost rest0 = rest;
    let out = with_field(rest, "dependencies", new_deps);
    proof {
        lemma_put_back(opts, rest0, "dependencies"@, nd, fields_of(out));
        law_field_reads_back(fields_of(opts), "dependencies"@, nd, fields_of(out));
        law_field_reads_back(fields_of(deps0), "dependency"@, arr0, fields_of(nd));
    }
    Some(out)
}

/// The JSON string `t`.
pub open spec fn is_text(v: JsonValue, t: Seq<char>) -> bool {
    v matches JsonValue::Str(s) && s@ == t
}

/// The launcher description written for the IDE: its name `scala-cli`, the
/// command, the scala-cli version, the BSP version `2.1.1` and the languages
/// `scala` and `java`.
pub fn connection_file(argv: Vec<String>, version: String) -> (r: JsonValue)
    ensures
        r is Object,
        fields_of(r).len() == 5,
        fields_of(r)[0].0@ == "name"@,
        is_text(fields_of(r)[0].1, "scala-cli"@),
        fields_of(r)[1].0@ == "argv"@,
        fields_of(r)[1].1 matches JsonValue::Array(vs) && vs@.len() == argv@.len() && forall|j: int|
            0 <= j < argv@.len() ==> #[trigger] vs@[j] == JsonValue::Str(argv@[j]),
        fields_of(r)[2].0@ == "version"@,
        fields_of(r)[2].1 == JsonValue::Str(version),
        fields_of(r)[3].0@ == "bspVersion"@,
        is_text(fields_of(r)[3].1, "2.1.1"@),
        fields_of(r)[4].0@ == "languages"@,
        fields_of(r)[4].1 matches JsonValue::Array(ls) && ls@.len() == 2 && is_text(ls@[0], "scala"@)
            && is_text(ls@[1], "java"@),
{
    let mut languages: Vec<JsonValue> = Vec::new();
    languages.push(JsonValue::Str("scala".to_owned()));
    languages.push(JsonValue::Str("java".to_owned()));
    let mut fields: Vec<(String, JsonValue)> = Vec::new();
    fields.push(("name".to_owned(), JsonValue::Str("scala-cli".to_owned())));
    fields.push(("argv".to_owned(), string_array(argv)));
    fields.push(("version".to_owned(), JsonValue::Str(version)));
    fields.push(("bspVersion".to_owned(), JsonValue::Str("2.1.1".to_owned())));
    fields.push(("languages".to_owned(), JsonValue::Array(languages)));
    JsonValue::Object(fields)
}

/// The environment written for the IDE: each variable under its name, as a
/// string, in order.
pub fn environment_file(vars: Vec<(String, String)>) -> (r: JsonValue)
    ensures
        r is Object,
        fields_of(r).len() == vars@.len(),
        forall|j: int|
            0 <= j < vars@.len() ==> #[trigger] fields_of(r)[j] == (vars@[j].0, JsonValue::Str(vars@[j].1)),
{
    let mut fields: Vec<(String, JsonValue)> = Vec::new();
    let mut i: usize = 0;
    while i < vars.len()
        invariant
            i <= vars@.len(),
            fields@.len() == i,
            forall|j: int| 0 <= j < i ==> #[trigger] fields@[j] == (vars@[j].0, JsonValue::Str(vars@[j].1)),
        decreases vars@.len() - i,
    {
        let (k, v) = (vars[i].0.clone(), vars[i].1.clone());
        fields.push((k, JsonValue::Str(v)));
        i = i + 1;
    }
    JsonValue::Object(fields)
}

} // verus!
