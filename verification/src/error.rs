use vstd::prelude::*;

verus! {

/// Why the launcher refuses a version profile or a launch.
#[derive(Debug, PartialEq, Eq)]
pub enum LauncherError {
    /// The version profile is malformed; the text says how.
    InvalidVersionProfile(String),
    /// A `${...}` template names a parameter that the launcher does not fill.
    UnknownTemplateParameter(String),
    /// A rule's OS version pattern is not a valid regular expression.
    InvalidRegex(String),
    /// The operating system is not one the launcher knows.
    UnknownOperatingSystem,
}

} // verus!
