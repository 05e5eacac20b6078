# sinter

A Cargo-like build tool for Scala projects, written as a verified library
with a thin I/O layer around it.

- `src/` is the library, verified with Verus: the project model and its
  validation rules, the dependency table, dependency coordinates and the
  parsing of `sinter add` arguments, transitive-dependency merging and sbt
  tree parsing, the Unix path algebra, templates, the command lines handed to
  scala-cli and the other build tools, the BSP layout and the JSON files it
  writes, the edits made to a manifest (through `toml_edit`, keeping the
  file's layout), the mapping of parsed arguments onto commands, and HTTP
  requests as data. Every public function carries a contract; the laws that
  relate several functions are public proof functions named `law_*`. Calls
  into `toml_edit` and `serde_json` go through small trusted functions whose
  contracts are stated over the entries a document holds.
- `app/` does what the library leaves to its caller: argument parsing with
  clap, reading `project.toml` with `config`, the file system, running
  scala-cli, sbt, Maven and Gradle, reading the environment, and sending HTTP
  requests.
- `tests/` exercises the library on concrete values.
