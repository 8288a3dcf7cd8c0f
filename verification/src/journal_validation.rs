//! Normalisation of journal settings: namespace, identifier and size limit.
use crate::text::{
    ascii_upper, chars_of, contains_char, parse_u64, parse_unsigned, trim,
    trim_str,
};
use vstd::prelude::*;

verus! {

#[derive(Debug, Clone, Copy, PartialEq, Eq)]
pub enum JournalNamespaceViolation {
    Empty,
    ContainsNul,
}

#[derive(Debug, Clone, Copy, PartialEq, Eq)]
pub enum JournalIdentifierViolation {
    Blank,
    ContainsNul,
}

#[derive(Debug, Clone, Copy, PartialEq, Eq)]
pub enum MaxUseViolation {
    Empty,
    ContainsNul,
    InvalidFormat,
}

/// The normalised namespace: `value` trimmed, refused when empty or holding NUL.
pub open spec fn namespace_result(value: Seq<char>) -> Result<Seq<char>, JournalNamespaceViolation> {
    let t = trim(value);
    if t.len() == 0 {
        Err(JournalNamespaceViolation::Empty)
    } else if t.contains('\0') {
        Err(JournalNamespaceViolation::ContainsNul)
    } else {
        Ok(t)
    }
}

/// Trims a namespace and refuses an empty one or one holding NUL.
pub fn normalize_namespace(value: &str) -> (r: Result<String, JournalNamespaceViolation>)
    ensures
        match namespace_result(value@) {
            Ok(t) => r is Ok && r->Ok_0@ == t,
            Err(e) => r == Err::<String, JournalNamespaceViolation>(e),
        },
{
    let namespace = trim_str(value);
    if chars_of(namespace.as_str()).len() == 0 {
        return Err(JournalNamespaceViolation::Empty);
    }
    if contains_char(namespace.as_str(), '\0') {
        return Err(JournalNamespaceViolation::ContainsNul);
    }
    Ok(namespace)
}

/// Normalising an already normalised namespace changes nothing.
pub proof fn lemma_namespace_idempotent(value: Seq<char>)
    requires
        namespace_result(value) is Ok,
    ensures
        namespace_result(namespace_result(value)->Ok_0) == namespace_result(value),
{
    crate::text::lemma_trim_idempotent(value);
}

/// Identifier as written in a config file: missing or blank means unset.
pub open spec fn config_identifier_result(value: Option<Seq<char>>) -> Result<
    Option<Seq<char>>,
    JournalIdentifierViolation,
> {
    match value {
        None => Ok(None),
        Some(v) => {
            let t = trim(v);
            if t.len() == 0 {
                Ok(None)
            } else if t.contains('\0') {
                Err(JournalIdentifierViolation::ContainsNul)
            } else {
                Ok(Some(t))
            }
        },
    }
}

/// Identifier as handed to an invocation: missing means unset, blank is refused.
pub open spec fn invocation_identifier_result(value: Option<Seq<char>>) -> Result<
    Option<Seq<char>>,
    JournalIdentifierViolation,
> {
    match value {
        None => Ok(None),
        Some(v) => {
            let t = trim(v);
            if t.len() == 0 {
                Err(JournalIdentifierViolation::Blank)
            } else if t.contains('\0') {
                Err(JournalIdentifierViolation::ContainsNul)
            } else {
                Ok(Some(t))
            }
        },
    }
}

pub open spec fn opt_view(o: Option<&str>) -> Option<Seq<char>> {
    match o {
        Some(s) => Some(s@),
        None => None,
    }
}

pub open spec fn opt_string_view(o: Option<String>) -> Option<Seq<char>> {
    match o {
        Some(s) => Some(s@),
        None => None,
    }
}

pub fn normalize_optional_identifier_for_config(value: Option<&str>) -> (r: Result<
    Option<String>,
    JournalIdentifierViolation,
>)
    ensures
        match config_identifier_result(opt_view(value)) {
            Ok(o) => r is Ok && opt_string_view(r->Ok_0) == o,
            Err(e) => r == Err::<Option<String>, JournalIdentifierViolation>(e),
        },
{
    let value = match value {
        Some(v) => v,
        None => {
            return Ok(None);
        },
    };
    let identifier = trim_str(value);
    if chars_of(identifier.as_str()).len() == 0 {
        return Ok(None);
    }
    if contains_char(identifier.as_str(), '\0') {
        return Err(JournalIdentifierViolation::ContainsNul);
    }
    Ok(Some(identifier))
}

pub fn normalize_optional_identifier_for_invocation(value: Option<&str>) -> (r: Result<
    Option<String>,
    JournalIdentifierViolation,
>)
    ensures
        match invocation_identifier_result(opt_view(value)) {
            Ok(o) => r is Ok && opt_string_view(r->Ok_0) == o,
            Err(e) => r == Err::<Option<String>, JournalIdentifierViolation>(e),
        },
{
    let value = match value {
        Some(v) => v,
        None => {
            return Ok(None);
        },
    };
    let identifier = trim_str(value);
    if chars_of(identifier.as_str()).len() == 0 {
        return Err(JournalIdentifierViolation::Blank);
    }
    if contains_char(identifier.as_str(), '\0') {
        return Err(JournalIdentifierViolation::ContainsNul);
    }
    Ok(Some(identifier))
}

/// The number part of a size: one trailing `G`, `M` or `K` removed.
pub open spec fn size_number_part(upper: Seq<char>) -> Seq<char> {
    if upper.len() > 0 && (upper.last() == 'G' || upper.last() == 'M' || upper.last() == 'K') {
        upper.drop_last()
    } else {
        upper
    }
}

/// The unit multiplier a size's (upper-cased) suffix stands for.
pub open spec fn size_multiplier(upper: Seq<char>) -> nat {
    if upper.len() > 0 && upper.last() == 'G' {
        1024 * 1024 * 1024
    } else if upper.len() > 0 && upper.last() == 'M' {
        1024 * 1024
    } else if upper.len() > 0 && upper.last() == 'K' {
        1024
    } else {
        1
    }
}

/// The number a size string (e.g. `256M`) holds before its unit.
pub open spec fn size_number(value: Seq<char>) -> Option<nat> {
    parse_unsigned(trim(size_number_part(ascii_upper(value))), u64::MAX as nat)
}

pub open spec fn max_use_result(value: Seq<char>) -> Result<Seq<char>, MaxUseViolation> {
    let t = trim(value);
    if t.len() == 0 {
        Err(MaxUseViolation::Empty)
    } else if t.contains('\0') {
        Err(MaxUseViolation::ContainsNul)
    } else if size_number(t) is None {
        Err(MaxUseViolation::InvalidFormat)
    } else {
        Ok(t)
    }
}

/// The number part of `value` (upper-cased, unit removed, trimmed) and the
/// unit multiplier.
pub fn split_size(value: &str) -> (r: (Option<u64>, u64))
    ensures
        match r.0 {
            Some(n) => size_number(value@) == Some(n as nat),
            None => size_number(value@) is None,
        },
        r.1 as nat == size_multiplier(ascii_upper(value@)),
{
    let v = chars_of(value);
    let upper = crate::text::vec_ascii_upper(&v);
    let n = upper.len();
    let (end, mult): (usize, u64) = if n > 0 && upper[n - 1] == 'G' {
        (n - 1, 1024 * 1024 * 1024)
    } else if n > 0 && upper[n - 1] == 'M' {
        (n - 1, 1024 * 1024)
    } else if n > 0 && upper[n - 1] == 'K' {
        (n - 1, 1024)
    } else {
        (n, 1)
    };
    let num = crate::text::string_from_range(&upper, 0, end);
    assert(num@ =~= size_number_part(ascii_upper(value@)));
    let num = trim_str(num.as_str());
    (parse_u64(num.as_str()), mult)
}

/// Validates a `max_use` size such as `256M`, `1G` or `1048576`; returns it trimmed.
pub fn validate_max_use(value: &str) -> (r: Result<String, MaxUseViolation>)
    ensures
        match max_use_result(value@) {
            Ok(t) => r is Ok && r->Ok_0@ == t,
            Err(e) => r == Err::<String, MaxUseViolation>(e),
        },
{
    let trimmed = trim_str(value);
    if chars_of(trimmed.as_str()).len() == 0 {
        return Err(MaxUseViolation::Empty);
    }
    if contains_char(trimmed.as_str(), '\0') {
        return Err(MaxUseViolation::ContainsNul);
    }
    let (number, _) = split_size(trimmed.as_str());
    if number.is_none() {
        return Err(MaxUseViolation::InvalidFormat);
    }
    Ok(trimmed)
}

} // verus!
