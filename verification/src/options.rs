//! Options of the compiler.
use vstd::prelude::*;

verus! {

/// How identifiers written in a query are matched against the names in the schema.
#[derive(Debug, Clone, Copy, PartialEq, Eq)]
pub enum IdentifierResolution {
    /// Only the exact name matches.
    Strict,
    /// Names also match in a looser form (the default).
    Flexible,
}

impl Default for IdentifierResolution {
    fn default() -> (r: IdentifierResolution)
        ensures
            r == IdentifierResolution::Flexible,
    {
        IdentifierResolution::Flexible
    }
}

} // verus!
