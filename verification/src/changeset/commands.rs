//! What can be asked of the changelog tool.

use vstd::prelude::*;

verus! {

/// What is asked when a changelog is built.
#[derive(Debug, Clone, PartialEq, Eq)]
pub struct BuildChangelog {
    /// Whether the steps are traced.
    pub verbose: bool,
    /// Whether nothing but errors is shown.
    pub quiet: bool,
    /// Whether colour is used.
    pub color: Option<String>,
    /// The version of the release that the changelog is built for.
    pub release: Option<String>,
    /// Whether nothing is written.
    pub dry_run: bool,
    /// The manifest of the project.
    pub manifest_path: String,
}

/// What is asked when entries are checked.
#[derive(Debug, Clone, PartialEq, Eq)]
pub struct ValidateChangelog {
    /// The files of the entries.
    pub files: Vec<String>,
    /// Whether the steps are traced.
    pub verbose: bool,
    /// Whether nothing but errors is shown.
    pub quiet: bool,
    /// Whether colour is used.
    pub color: Option<String>,
    /// The manifest of the project.
    pub manifest_path: String,
}

/// The toolchain that an argument of the form `+toolchain` names.
pub fn is_toolchain(toolchain: &str) -> (name: Option<String>)
    ensures
        crate::text::opt_str(name) == crate::text::without_prefix(toolchain@, "+"@),
{
    crate::text::strip_prefix(toolchain, "+")
}

} // verus!
