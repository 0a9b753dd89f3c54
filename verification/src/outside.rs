//! Declarations of the types of other crates that values of the library pass through.

use vstd::prelude::*;

verus! {

/// The parameter list of a control sequence as `vte` hands it over.
#[verifier::external_type_specification]
#[verifier::external_body]
pub struct ExParams(vte::Params);

/// A copy of a span of time is the same span.
pub assume_specification[ <core::time::Duration as Clone>::clone ](
    d: &core::time::Duration,
) -> (r: core::time::Duration)
    ensures
        r == *d,
;

} // verus!
