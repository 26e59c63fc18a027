//! The generic-bound injector.
//!
//! A record with generic type parameters needs every parameter to support
//! an inspectability capability for the generated default logic to remain
//! well typed, even though the packing arithmetic never inspects a
//! parameter's runtime value. This mirrors the usual over-constraining of
//! derived construction logic for generic containers. The injector computes
//! that constraint set once per record, independently of field iteration.

use vstd::prelude::*;

verus! {

/// The capability a generic type parameter must support.
#[derive(Clone, Copy, Debug, PartialEq, Eq, Structural)]
pub enum Capability {
    /// The parameter's values can be inspected (debug-printed).
    Inspect,
}

/// One auxiliary constraint: a generic type parameter together with the
/// capability required of it.
#[derive(Debug, PartialEq, Eq)]
pub struct ParamBound {
    pub param: String,
    pub capability: Capability,
}

/// The constraint set `bs` is exactly the one required for the parameter
/// list `params`: one bound per parameter, in order, each demanding the
/// inspectability capability.
pub open spec fn bounds_for(params: Seq<String>, bs: Seq<ParamBound>) -> bool {
    &&& bs.len() == params.len()
    &&& forall|i: int|
        0 <= i < bs.len() ==> #[trigger] bs[i].param == params[i] && bs[i].capability
            == Capability::Inspect
}

/// Compute the auxiliary constraint set for a record's generic type
/// parameters: every parameter is bound to the inspectability capability.
pub fn inject_bounds(params: &Vec<String>) -> (r: Vec<ParamBound>)
    ensures
        bounds_for(params@, r@),
{
    let mut r: Vec<ParamBound> = Vec::new();
    let mut j: usize = 0;
    while j < params.len()
        invariant
            j <= params.len(),
            r@.len() == j,
            forall|i: int|
                0 <= i < j ==> #[trigger] r@[i].param == params@[i] && r@[i].capability
                    == Capability::Inspect,
        decreases params.len() - j,
    {
        r.push(ParamBound { param: params[j].clone(), capability: Capability::Inspect });
        j = j + 1;
    }
    r
}

} // verus!
