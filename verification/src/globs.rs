use vstd::prelude::*;

verus! {

/// Whether the glob crate accepts a pattern: what `glob::Pattern::new`
/// returns is a function of the pattern text alone.
pub uninterp spec fn glob_pattern_ok(pattern: Seq<char>) -> bool;

/// Whether a glob pattern matches a path: what `glob::Pattern::matches`
/// returns is a function of the pattern text and the path text alone.
pub uninterp spec fn glob_matches(pattern: Seq<char>, path: Seq<char>) -> bool;

#[verifier::external_type_specification]
#[verifier::external_body]
pub struct ExPatternError(glob::PatternError);

/// Relies on `glob::Pattern::new` (a pattern text either compiles or is
/// refused, by its characters alone) and `glob::Pattern::matches` (a
/// compiled pattern matches a path by the two texts alone). Both walk only
/// their arguments; neither touches the filesystem.
#[verifier::external_body]
pub(crate) fn glob_match(pattern: &str, path: &str) -> (r: Result<bool, glob::PatternError>)
    ensures
        (r is Ok) == glob_pattern_ok(pattern@),
        r matches Ok(b) ==> b == glob_matches(pattern@, path@),
{
    match glob::Pattern::new(pattern) {
        Ok(p) => Ok(p.matches(path)),
        Err(e) => Err(e),
    }
}

} // verus!
