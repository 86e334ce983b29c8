//! Command-line arguments of the program built around the library: an
//! optional path of a script to execute. Reading the actual process
//! arguments is the entry point's concern.

use vstd::prelude::*;

verus! {

/// The parsed command line: a script path, or nothing for prompt mode.
#[derive(Debug)]
pub struct Args {
    /// filename that you want to execute
    pub file: Option<String>,
}

} // verus!
