//! Entry-point detection as the single-file builder does it.

use crate::text::{contains_seq, contains_str};
use vstd::prelude::*;

verus! {

/// A Scala source with a `def main(` or an `extends App`.
pub open spec fn has_main_basic(content: Seq<char>) -> bool {
    contains_seq(content, "def main("@) || contains_seq(content, "extends App"@)
}

/// Whether a Scala source defines an entry point (`def main(` or `extends App`).
pub fn has_main_method(content: &str) -> (b: bool)
    ensures
        b == has_main_basic(content@),
{
    contains_str(content, "def main(") || contains_str(content, "extends App")
}

} // verus!
