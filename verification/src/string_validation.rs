//! The one rule every value handed to the operating system obeys: no NUL.
use vstd::prelude::*;

verus! {

#[derive(Debug, Clone, Copy, PartialEq, Eq)]
pub enum StringViolation {
    ContainsNul,
}

/// Accepts any string without a NUL character.
pub fn reject_nul(value: &str) -> (r: Result<(), StringViolation>)
    ensures
        r is Ok <==> !value@.contains('\0'),
        r is Err ==> r == Err::<(), StringViolation>(StringViolation::ContainsNul),
{
    if crate::text::contains_char(value, '\0') {
        return Err(StringViolation::ContainsNul);
    }
    Ok(())
}

} // verus!
