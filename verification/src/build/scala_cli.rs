//! scala-cli: where a bundled copy lives, and what a finished invocation
//! reports.

use crate::build::runner::{combine_output, combined_output};
use crate::text::concat;
use crate::toolkit::os::{path_join, PathWrapper};
use vstd::prelude::*;

verus! {

/// Where a bundled scala-cli is looked for: `bin/<exe_name>` under a directory
/// (the executable's directory, or the manifest directory).
pub fn bundled_scala_cli_path(dir: &PathWrapper, exe_name: &str) -> (r: PathWrapper)
    ensures
        r@ == path_join(path_join(dir@, "bin"@), exe_name@),
{
    dir.join("bin").join(exe_name)
}

/// What a finished scala-cli invocation reports: its standard output when it
/// succeeded; otherwise a failure carrying the combined output.
pub fn scala_cli_outcome(success: bool, stdout: &str, stderr: &str) -> (r: Result<String, String>)
    ensures
        success ==> (r matches Ok(s) && s@ == stdout@),
        !success ==> (r matches Err(e) && e@ == "scala-cli failed: "@ + combined_output(
            stdout@,
            stderr@,
        )),
{
    if success {
        Ok(stdout.to_owned())
    } else {
        let full = combine_output(stdout, stderr);
        Err(concat("scala-cli failed: ", full.as_str()))
    }
}

} // verus!
