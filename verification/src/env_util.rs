//! How environment switches and path overrides are read; looking the
//! variables up stays with the caller.
use crate::text::{ascii_lower, chars_of, str_eq, string_from_chars, trim, trim_str, vec_ascii_lower};
use vstd::prelude::*;

verus! {

/// A switch is on when its trimmed value is `1`, `true`, `yes` or `on`
/// (ASCII case ignored); an unset variable is off.
pub open spec fn flag_enabled(value: Option<Seq<char>>) -> bool {
    match value {
        None => false,
        Some(v) => {
            let t = trim(v);
            ||| t == "1"@
            ||| ascii_lower(t) == "true"@
            ||| ascii_lower(t) == "yes"@
            ||| ascii_lower(t) == "on"@
        },
    }
}

pub fn flag_value_enabled(value: Option<&str>) -> (r: bool)
    ensures
        r == flag_enabled(crate::journal_validation::opt_view(value)),
{
    match value {
        None => false,
        Some(v) => {
            let t = trim_str(v);
            let lower = string_from_chars(&vec_ascii_lower(&chars_of(t.as_str())));
            str_eq(t.as_str(), "1") || str_eq(lower.as_str(), "true") || str_eq(lower.as_str(), "yes")
                || str_eq(lower.as_str(), "on")
        },
    }
}

/// A path override is the trimmed value, unless that is empty.
pub open spec fn path_override(value: Option<Seq<char>>) -> Option<Seq<char>> {
    match value {
        None => None,
        Some(v) => if trim(v).len() == 0 {
            None
        } else {
            Some(trim(v))
        },
    }
}

pub fn path_override_value(value: Option<&str>) -> (r: Option<String>)
    ensures
        crate::journal_validation::opt_string_view(r) == path_override(
            crate::journal_validation::opt_view(value),
        ),
{
    match value {
        None => None,
        Some(v) => {
            if crate::text::str_is_blank(v) {
                None
            } else {
                Some(trim_str(v))
            }
        },
    }
}

} // verus!
