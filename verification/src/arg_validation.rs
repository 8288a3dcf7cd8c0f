//! Validation of argument values handed to the launched command.
use vstd::prelude::*;

verus! {

#[derive(Debug, Clone, Copy, PartialEq, Eq)]
pub enum ArgViolation {
    ContainsNul,
}

/// Any argument is accepted except one holding a NUL character.
pub fn validate_arg_value(value: &str) -> (r: Result<(), ArgViolation>)
    ensures
        r is Ok <==> !value@.contains('\0'),
        r is Err ==> r == Err::<(), ArgViolation>(ArgViolation::ContainsNul),
{
    if crate::text::contains_char(value, '\0') {
        return Err(ArgViolation::ContainsNul);
    }
    Ok(())
}

} // verus!
