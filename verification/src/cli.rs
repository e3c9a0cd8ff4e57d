//! What the command line says.

use vstd::prelude::*;
use std::path::PathBuf;

verus! {

/// `std::path::PathBuf`, made known as a type to carry through: nothing is
/// claimed of what a path holds.
#[verifier::external_type_specification]
#[verifier::external_body]
pub struct ExPathBuf(PathBuf);

/// The arguments of the command line.
#[derive(Debug)]
pub struct CLIArgs {
    /// Where the configuration file is.
    pub config_file: PathBuf,
}

} // verus!
