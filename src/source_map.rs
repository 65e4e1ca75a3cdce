//! A syntax node paired with the location its diagnostics are reported at.
use vstd::prelude::*;
use crate::ast::Location;

verus! {

pub struct SourceMapped<'a, T> {
    pub node: &'a T,
    pub location: Location,
}

impl<'a, T> SourceMapped<'a, T> {
    pub fn new(node: &'a T, location: Location) -> (r: Self)
        ensures
            r.node == node,
            r.location == location,
    {
        SourceMapped { node, location }
    }
}

/// The view of an optional name.
pub open spec fn name_view(n: Option<String>) -> Option<Seq<char>> {
    match n {
        Some(s) => Some(s@),
        None => None,
    }
}

} // verus!
