use vstd::prelude::*;

verus! {

/// The single terminal error of a packing run. Every stage aborts the
/// remaining pipeline on its first error; no partial completion exists.
#[derive(Debug, Clone, Copy, PartialEq, Eq, Structural)]
pub enum PackError {
    /// The configuration script does not follow the declarative grammar.
    ScriptSyntax,
    /// The declared UI entry point is not the single supported path.
    UnsupportedUiPage,
    /// A UI entry point was expected but none was declared.
    MissingUiPage,
    /// An ignore pattern is not a valid glob pattern.
    InvalidPattern,
}

impl PackError {
    /// The human-readable message reported once, at the top level.
    pub fn message(&self) -> (r: &'static str)
        ensures
            self is ScriptSyntax ==> r@ == "configuration script has a syntax error"@,
            self is UnsupportedUiPage ==> r@ == "as of now, only web/dist/index.html is supported"@,
            self is MissingUiPage ==> r@ == "no UI page found"@,
            self is InvalidPattern ==> r@ == "an ignore pattern is not a valid glob"@,
    {
        match self {
            PackError::ScriptSyntax => "configuration script has a syntax error",
            PackError::UnsupportedUiPage => "as of now, only web/dist/index.html is supported",
            PackError::MissingUiPage => "no UI page found",
            PackError::InvalidPattern => "an ignore pattern is not a valid glob",
        }
    }
}

} // verus!
