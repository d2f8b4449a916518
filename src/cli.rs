//! The command line: one optional flag naming a configuration file.
use vstd::prelude::*;

verus! {

/// The command-line options.
pub struct Cli {
    /// Configuration file.
    pub c: Option<String>,
}

} // verus!
