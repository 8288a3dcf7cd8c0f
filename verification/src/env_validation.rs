//! Validation of environment variable names and values.
use vstd::prelude::*;

verus! {

#[derive(Debug, Clone, Copy, PartialEq, Eq)]
pub enum EnvKeyViolation {
    ContainsEquals,
    ContainsNul,
}

#[derive(Debug, Clone, Copy, PartialEq, Eq)]
pub enum EnvValueViolation {
    ContainsNul,
}

/// Which rule a variable name breaks first, if any.
pub open spec fn env_key_violation(key: Seq<char>) -> Option<EnvKeyViolation> {
    if key.contains('=') {
        Some(EnvKeyViolation::ContainsEquals)
    } else if key.contains('\0') {
        Some(EnvKeyViolation::ContainsNul)
    } else {
        None
    }
}

/// A variable name may hold anything but `=` and NUL.
pub fn validate_env_key(key: &str) -> (r: Result<(), EnvKeyViolation>)
    ensures
        match env_key_violation(key@) {
            None => r is Ok,
            Some(v) => r == Err::<(), EnvKeyViolation>(v),
        },
{
    if crate::text::contains_char(key, '=') {
        return Err(EnvKeyViolation::ContainsEquals);
    }
    if crate::text::contains_char(key, '\0') {
        return Err(EnvKeyViolation::ContainsNul);
    }
    Ok(())
}

/// A variable value may hold anything but NUL.
pub fn validate_env_value(value: &str) -> (r: Result<(), EnvValueViolation>)
    ensures
        r is Ok <==> !value@.contains('\0'),
        r is Err ==> r == Err::<(), EnvValueViolation>(EnvValueViolation::ContainsNul),
{
    if crate::text::contains_char(value, '\0') {
        return Err(EnvValueViolation::ContainsNul);
    }
    Ok(())
}

} // verus!
