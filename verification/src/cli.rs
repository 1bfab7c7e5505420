//! The command line surface of the tool, as plain values: which files to
//! load, an optional filter file, whether to stay in the terminal, and
//! whether to sort the file list by name before loading.

use vstd::prelude::*;

verus! {

/// The parsed command line.
pub struct Cli {
    /// Paths of the DLT files to load, in the order given.
    pub paths: Option<Vec<String>>,
    /// Path of a DLT filter file.
    pub filter: Option<String>,
    /// Use the terminal as output.
    pub terminal: bool,
    /// Sort the DLT files by name.
    pub sort: bool,
}

} // verus!
