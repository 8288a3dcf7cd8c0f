//! Validation of PATH-editing operands.
use crate::string_validation::{reject_nul, StringViolation};
use vstd::prelude::*;

verus! {

#[derive(Debug, Clone, Copy, PartialEq, Eq)]
pub enum PathMutationViolation {
    ContainsNul,
}

/// PATH operands may be blank or symbolic; only NUL is refused.
pub fn validate_path_mutation_value(value: &str) -> (r: Result<(), PathMutationViolation>)
    ensures
        r is Ok <==> !value@.contains('\0'),
        r is Err ==> r == Err::<(), PathMutationViolation>(PathMutationViolation::ContainsNul),
{
    match reject_nul(value) {
        Ok(()) => Ok(()),
        Err(StringViolation::ContainsNul) => Err(PathMutationViolation::ContainsNul),
    }
}

} // verus!
