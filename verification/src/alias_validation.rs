//! The rules an alias name obeys.
use crate::text::{contains_char, is_blank, is_ws, str_eq, str_is_blank};
use vstd::prelude::*;

verus! {

#[derive(Debug, Clone, Copy, PartialEq, Eq)]
pub enum AliasViolation {
    Empty,
    ContainsNul,
    IsSeparator,
    StartsWithDash,
    ContainsWhitespace,
    IsDotToken,
    ContainsPathSeparator,
}

pub open spec fn has_whitespace(s: Seq<char>) -> bool {
    exists|i: int| 0 <= i < s.len() && #[trigger] is_ws(s[i])
}

/// The first rule that `alias` breaks, in the order they are checked.
pub open spec fn alias_violation(alias: Seq<char>) -> Option<AliasViolation> {
    if is_blank(alias) {
        Some(AliasViolation::Empty)
    } else if alias.contains('\0') {
        Some(AliasViolation::ContainsNul)
    } else if alias == "--"@ {
        Some(AliasViolation::IsSeparator)
    } else if alias.len() > 0 && alias[0] == '-' {
        Some(AliasViolation::StartsWithDash)
    } else if has_whitespace(alias) {
        Some(AliasViolation::ContainsWhitespace)
    } else if alias == "."@ || alias == ".."@ {
        Some(AliasViolation::IsDotToken)
    } else if alias.contains('/') || alias.contains('\\') {
        Some(AliasViolation::ContainsPathSeparator)
    } else {
        None
    }
}

/// Accepts an alias name, or names the first rule it breaks.
pub fn validate_alias_identifier(alias: &str) -> (r: Result<(), AliasViolation>)
    ensures
        match alias_violation(alias@) {
            None => r is Ok,
            Some(v) => r == Err::<(), AliasViolation>(v),
        },
{
    if str_is_blank(alias) {
        return Err(AliasViolation::Empty);
    }
    if contains_char(alias, '\0') {
        return Err(AliasViolation::ContainsNul);
    }
    if str_eq(alias, "--") {
        return Err(AliasViolation::IsSeparator);
    }
    let chars = crate::text::chars_of(alias);
    if chars.len() > 0 && chars[0] == '-' {
        return Err(AliasViolation::StartsWithDash);
    }
    let mut i: usize = 0;
    while i < chars.len()
        invariant
            0 <= i <= chars.len(),
            chars@ == alias@,
            !is_blank(alias@),
            !alias@.contains('\0'),
            alias@ != "--"@,
            !(alias@.len() > 0 && alias@[0] == '-'),
            forall|j: int| 0 <= j < i ==> !#[trigger] is_ws(chars@[j]),
        decreases chars.len() - i,
    {
        if crate::text::char_is_ws(chars[i]) {
            assert(is_ws(alias@[i as int]));
            return Err(AliasViolation::ContainsWhitespace);
        }
        i = i + 1;
    }
    if str_eq(alias, ".") || str_eq(alias, "..") {
        return Err(AliasViolation::IsDotToken);
    }
    if contains_char(alias, '/') || contains_char(alias, '\\') {
        return Err(AliasViolation::ContainsPathSeparator);
    }
    Ok(())
}

/// An accepted alias is a single non-empty word that cannot be read as a
/// flag, a path or a dot token.
pub proof fn lemma_accepted_alias_shape(alias: Seq<char>)
    requires
        alias_violation(alias) is None,
    ensures
        alias.len() > 0,
        alias[0] != '-',
        !has_whitespace(alias),
        !alias.contains('\0'),
        !alias.contains('/'),
        !alias.contains('\\'),
        alias != "."@,
        alias != ".."@,
{
    if alias.len() == 0 {
        assert(is_blank(alias));
    }
}

} // verus!
