//! Parsing of the small values that `--alias add|set` options carry, and the
//! errors that alias administration reports.
use crate::alias_validation::AliasViolation;
use crate::text::{
    ascii_lower, chars_of, concat3, index_of, str_eq, string_from_range, to_owned, trim, trim_str,
    vec_ascii_lower, vec_index_of,
};
use vstd::prelude::*;

verus! {

/// Everything alias administration can refuse.
#[derive(Debug, Clone, PartialEq, Eq)]
pub enum AliasAdminError {
    /// An `--env` value without `=`.
    EnvAssignmentForm { value: String },
    /// An `--env` value whose key is blank.
    EnvAssignmentBlankKey,
    /// A boolean option with an unknown spelling.
    InvalidBool { field: String },
    /// An option given as the last word, without its value.
    MissingValue { option: String, expected: String },
    /// A numeric option whose value is not a number of the right size.
    InvalidInteger { option: String },
    /// A word that is no known option.
    UnknownOption { option: String },
    /// An alias name that breaks a naming rule.
    InvalidAlias(AliasViolation),
    /// Journal fields were given without a namespace.
    JournalNamespaceRequired,
    /// `add` without `--exec`.
    AddRequiresExec,
    /// `set` without any change.
    NoChanges { alias: String },
    /// A `remove` mode other than `clean` or `dirty`.
    UnknownRemoveMode { mode: String },
    /// An unknown `remove` option.
    UnknownRemoveOption { option: String },
    /// `--mode dirty` together with `--no-wrapper-sync`.
    DirtyWithoutWrapperSync,
    /// A subcommand other than get/add/set/remove.
    UnknownSubcommand { name: String },
    /// A subcommand with the wrong number of words.
    Usage { usage: String },
    /// `set` journal fields with neither a namespace nor `--journal-clear`.
    JournalMutationNeedsNamespace,
    /// `add` for an alias that already has a configuration.
    AlreadyExists { alias: String },
    /// `set` for an alias without a configuration.
    DoesNotExist { alias: String },
    /// A keep-configs removal that found no wrapper to remove.
    KeepConfigsNeedsWrapper,
    /// A removal that removed nothing.
    NothingRemoved { alias: String },
    /// A duplicate, rename or new alias whose name is already taken.
    TargetExists { alias: String },
    /// A duplicate or rename of an alias without a configuration.
    SourceMissing { alias: String },
    /// A rename to the alias's own name.
    RenameToSelf,
}

/// An [`AliasAdminError`] with its text fields taken as character sequences.
pub enum AdminFault {
    EnvAssignmentForm { value: Seq<char> },
    EnvAssignmentBlankKey,
    InvalidBool { field: Seq<char> },
    MissingValue { option: Seq<char>, expected: Seq<char> },
    InvalidInteger { option: Seq<char> },
    UnknownOption { option: Seq<char> },
    InvalidAlias(AliasViolation),
    JournalNamespaceRequired,
    AddRequiresExec,
    NoChanges { alias: Seq<char> },
    UnknownRemoveMode { mode: Seq<char> },
    UnknownRemoveOption { option: Seq<char> },
    DirtyWithoutWrapperSync,
    UnknownSubcommand { name: Seq<char> },
    Usage { usage: Seq<char> },
    JournalMutationNeedsNamespace,
    AlreadyExists { alias: Seq<char> },
    DoesNotExist { alias: Seq<char> },
    KeepConfigsNeedsWrapper,
    NothingRemoved { alias: Seq<char> },
    TargetExists { alias: Seq<char> },
    SourceMissing { alias: Seq<char> },
    RenameToSelf,
}

impl View for AliasAdminError {
    type V = AdminFault;

    open spec fn view(&self) -> AdminFault {
        match self {
            AliasAdminError::EnvAssignmentForm { value } => AdminFault::EnvAssignmentForm {
                value: value@,
            },
            AliasAdminError::EnvAssignmentBlankKey => AdminFault::EnvAssignmentBlankKey,
            AliasAdminError::InvalidBool { field } => AdminFault::InvalidBool { field: field@ },
            AliasAdminError::MissingValue { option, expected } => AdminFault::MissingValue {
                option: option@,
                expected: expected@,
            },
            AliasAdminError::InvalidInteger { option } => AdminFault::InvalidInteger {
                option: option@,
            },
            AliasAdminError::UnknownOption { option } => AdminFault::UnknownOption {
                option: option@,
            },
            AliasAdminError::InvalidAlias(v) => AdminFault::InvalidAlias(*v),
            AliasAdminError::JournalNamespaceRequired => AdminFault::JournalNamespaceRequired,
            AliasAdminError::AddRequiresExec => AdminFault::AddRequiresExec,
            AliasAdminError::NoChanges { alias } => AdminFault::NoChanges { alias: alias@ },
            AliasAdminError::UnknownRemoveMode { mode } => AdminFault::UnknownRemoveMode {
                mode: mode@,
            },
            AliasAdminError::UnknownRemoveOption { option } => AdminFault::UnknownRemoveOption {
                option: option@,
            },
            AliasAdminError::DirtyWithoutWrapperSync => AdminFault::DirtyWithoutWrapperSync,
            AliasAdminError::UnknownSubcommand { name } => AdminFault::UnknownSubcommand {
                name: name@,
            },
            AliasAdminError::Usage { usage } => AdminFault::Usage { usage: usage@ },
            AliasAdminError::JournalMutationNeedsNamespace =>
                AdminFault::JournalMutationNeedsNamespace,
            AliasAdminError::AlreadyExists { alias } => AdminFault::AlreadyExists {
                alias: alias@,
            },
            AliasAdminError::DoesNotExist { alias } => AdminFault::DoesNotExist { alias: alias@ },
            AliasAdminError::KeepConfigsNeedsWrapper => AdminFault::KeepConfigsNeedsWrapper,
            AliasAdminError::NothingRemoved { alias } => AdminFault::NothingRemoved {
                alias: alias@,
            },
            AliasAdminError::TargetExists { alias } => AdminFault::TargetExists { alias: alias@ },
            AliasAdminError::SourceMissing { alias } => AdminFault::SourceMissing { alias: alias@ },
            AliasAdminError::RenameToSelf => AdminFault::RenameToSelf,
        }
    }
}

/// The message for an alias name that breaks `v`.
pub open spec fn alias_violation_message(v: AliasViolation) -> Seq<char> {
    match v {
        AliasViolation::Empty => "alias name cannot be empty"@,
        AliasViolation::ContainsNul => "alias name cannot contain NUL bytes"@,
        AliasViolation::IsSeparator =>
            "alias name cannot be `--`; expected `chopper <alias> -- [args...]`"@,
        AliasViolation::StartsWithDash =>
            "alias name cannot start with `-`; choose a non-flag alias name"@,
        AliasViolation::ContainsWhitespace => "alias name cannot contain whitespace"@,
        AliasViolation::IsDotToken => "alias name cannot be `.` or `..`"@,
        AliasViolation::ContainsPathSeparator =>
            "alias name cannot contain path separators; use symlink mode or command PATH resolution instead"@,
    }
}

pub fn alias_violation_text(v: AliasViolation) -> (r: String)
    ensures
        r@ == alias_violation_message(v),
{
    match v {
        AliasViolation::Empty => to_owned("alias name cannot be empty"),
        AliasViolation::ContainsNul => to_owned("alias name cannot contain NUL bytes"),
        AliasViolation::IsSeparator => to_owned(
            "alias name cannot be `--`; expected `chopper <alias> -- [args...]`",
        ),
        AliasViolation::StartsWithDash => to_owned(
            "alias name cannot start with `-`; choose a non-flag alias name",
        ),
        AliasViolation::ContainsWhitespace => to_owned("alias name cannot contain whitespace"),
        AliasViolation::IsDotToken => to_owned("alias name cannot be `.` or `..`"),
        AliasViolation::ContainsPathSeparator => to_owned(
            "alias name cannot contain path separators; use symlink mode or command PATH resolution instead",
        ),
    }
}

impl AliasAdminError {
    /// The text shown to the user.
    pub open spec fn spec_message(&self) -> Seq<char> {
        match self {
            AliasAdminError::EnvAssignmentForm { value } =>
                "env assignment must be in KEY=VALUE form; got `"@ + value@ + "`"@,
            AliasAdminError::EnvAssignmentBlankKey => "env assignment key cannot be blank"@,
            AliasAdminError::InvalidBool { field } => field@
                + " must be one of true/false/1/0/yes/no/on/off"@,
            AliasAdminError::MissingValue { option, expected } => option@ + " requires "@
                + expected@,
            AliasAdminError::InvalidInteger { option } => option@
                + " requires a positive integer"@,
            AliasAdminError::UnknownOption { option } => "unknown option `"@ + option@ + "`"@,
            AliasAdminError::InvalidAlias(v) => alias_violation_message(*v),
            AliasAdminError::JournalNamespaceRequired =>
                "journal namespace is required when setting journal fields"@,
            AliasAdminError::AddRequiresExec => "`add` requires --exec <command>"@,
            AliasAdminError::NoChanges { alias } => "no changes requested for alias `"@ + alias@
                + "`"@,
            AliasAdminError::UnknownRemoveMode { mode } => "unknown remove mode `"@ + mode@
                + "`; expected clean or dirty"@,
            AliasAdminError::UnknownRemoveOption { option } => "unknown remove option `"@
                + option@ + "`"@,
            AliasAdminError::DirtyWithoutWrapperSync =>
                "--mode dirty cannot be combined with --no-wrapper-sync"@,
            AliasAdminError::UnknownSubcommand { name } => "unknown alias subcommand `"@ + name@
                + "`; expected get|add|set|remove\nRun `chopper --alias --help` for usage."@,
            AliasAdminError::Usage { usage } => "usage: "@ + usage@,
            AliasAdminError::JournalMutationNeedsNamespace =>
                "journal mutation requires a namespace or --journal-clear"@,
            AliasAdminError::AlreadyExists { alias } => "alias `"@ + alias@
                + "` already exists; use `set` to modify"@,
            AliasAdminError::DoesNotExist { alias } => "alias `"@ + alias@ + "` does not exist"@,
            AliasAdminError::KeepConfigsNeedsWrapper =>
                "keep-configs delete requires an existing wrapper symlink; pass --symlink-path <path> if needed"@,
            AliasAdminError::NothingRemoved { alias } => "nothing was removed for alias `"@
                + alias@ + "`"@,
            AliasAdminError::TargetExists { alias } => "alias `"@ + alias@
                + "` already exists; choose a different name"@,
            AliasAdminError::SourceMissing { alias } => "source alias `"@ + alias@
                + "` does not exist"@,
            AliasAdminError::RenameToSelf => "rename source and target aliases must differ"@,
        }
    }

    /// The text shown to the user.
    pub fn message(&self) -> (r: String)
        ensures
            r@ == self.spec_message(),
    {
        match self {
            AliasAdminError::EnvAssignmentForm { value } => concat3(
                "env assignment must be in KEY=VALUE form; got `",
                value.as_str(),
                "`",
            ),
            AliasAdminError::EnvAssignmentBlankKey => to_owned(
                "env assignment key cannot be blank",
            ),
            AliasAdminError::InvalidBool { field } => crate::text::concat2(
                field.as_str(),
                " must be one of true/false/1/0/yes/no/on/off",
            ),
            AliasAdminError::MissingValue { option, expected } => concat3(
                option.as_str(),
                " requires ",
                expected.as_str(),
            ),
            AliasAdminError::InvalidInteger { option } => crate::text::concat2(
                option.as_str(),
                " requires a positive integer",
            ),
            AliasAdminError::UnknownOption { option } => concat3(
                "unknown option `",
                option.as_str(),
                "`",
            ),
            AliasAdminError::InvalidAlias(v) => alias_violation_text(*v),
            AliasAdminError::JournalNamespaceRequired => to_owned(
                "journal namespace is required when setting journal fields",
            ),
            AliasAdminError::AddRequiresExec => to_owned("`add` requires --exec <command>"),
            AliasAdminError::NoChanges { alias } => concat3(
                "no changes requested for alias `",
                alias.as_str(),
                "`",
            ),
            AliasAdminError::UnknownRemoveMode { mode } => concat3(
                "unknown remove mode `",
                mode.as_str(),
                "`; expected clean or dirty",
            ),
            AliasAdminError::UnknownRemoveOption { option } => concat3(
                "unknown remove option `",
                option.as_str(),
                "`",
            ),
            AliasAdminError::DirtyWithoutWrapperSync => to_owned(
                "--mode dirty cannot be combined with --no-wrapper-sync",
            ),
            AliasAdminError::UnknownSubcommand { name } => concat3(
                "unknown alias subcommand `",
                name.as_str(),
                "`; expected get|add|set|remove\nRun `chopper --alias --help` for usage.",
            ),
            AliasAdminError::Usage { usage } => crate::text::concat2("usage: ", usage.as_str()),
            AliasAdminError::JournalMutationNeedsNamespace => to_owned(
                "journal mutation requires a namespace or --journal-clear",
            ),
            AliasAdminError::AlreadyExists { alias } => concat3(
                "alias `",
                alias.as_str(),
                "` already exists; use `set` to modify",
            ),
            AliasAdminError::DoesNotExist { alias } => concat3(
                "alias `",
                alias.as_str(),
                "` does not exist",
            ),
            AliasAdminError::KeepConfigsNeedsWrapper => to_owned(
                "keep-configs delete requires an existing wrapper symlink; pass --symlink-path <path> if needed",
            ),
            AliasAdminError::NothingRemoved { alias } => concat3(
                "nothing was removed for alias `",
                alias.as_str(),
                "`",
            ),
            AliasAdminError::TargetExists { alias } => concat3(
                "alias `",
                alias.as_str(),
                "` already exists; choose a different name",
            ),
            AliasAdminError::SourceMissing { alias } => concat3(
                "source alias `",
                alias.as_str(),
                "` does not exist",
            ),
            AliasAdminError::RenameToSelf => to_owned("rename source and target aliases must differ"),
        }
    }
}

/// `KEY=VALUE` split at the first `=`: the key trimmed, the value as written.
pub open spec fn env_assignment_result(value: Seq<char>) -> Option<(Seq<char>, Seq<char>)> {
    let k = index_of(value, '=');
    if k < 0 {
        None
    } else {
        Some((trim(value.subrange(0, k)), value.subrange(k + 1, value.len() as int)))
    }
}

/// Splits `KEY=VALUE` at the first `=`; the key is trimmed and may not be blank.
pub fn parse_env_assignment(value: &str) -> (r: Result<(String, String), AliasAdminError>)
    ensures
        match env_assignment_result(value@) {
            None => r matches Err(AliasAdminError::EnvAssignmentForm { value: v }) && v@
                == value@,
            Some((k, v)) => if k.len() == 0 {
                r == Err::<(String, String), AliasAdminError>(
                    AliasAdminError::EnvAssignmentBlankKey,
                )
            } else {
                r is Ok && r->Ok_0.0@ == k && r->Ok_0.1@ == v
            },
        },
{
    let chars = chars_of(value);
    let eq = match vec_index_of(&chars, '=') {
        Some(i) => i,
        None => {
            return Err(AliasAdminError::EnvAssignmentForm { value: to_owned(value) });
        },
    };
    let raw_key = string_from_range(&chars, 0, eq);
    let key = trim_str(raw_key.as_str());
    if chars_of(key.as_str()).len() == 0 {
        return Err(AliasAdminError::EnvAssignmentBlankKey);
    }
    let val = string_from_range(&chars, eq + 1, chars.len());
    Ok((key, val))
}

/// Splitting `key=value` gives `key` (when trimmed and free of `=`) and
/// `value` back, whatever `value` holds.
pub proof fn lemma_env_assignment_round_trip(key: Seq<char>, value: Seq<char>)
    requires
        trim(key) == key,
        key.len() > 0,
        !key.contains('='),
    ensures
        env_assignment_result(key + "="@ + value) == Some((key, value)),
{
    let s = key + "="@ + value;
    reveal_strlit("=");
    assert forall|j: int| 0 <= j < key.len() implies s[j] != '=' by {
        assert(s[j] == key[j]);
        if key[j] == '=' {
            assert(key.contains('='));
        }
    }
    crate::text::lemma_index_of(s, '=', key.len() as int);
    assert(s.subrange(0, key.len() as int) =~= key);
    assert(s.subrange(key.len() as int + 1, s.len() as int) =~= value);
}

/// The boolean a flag value spells, if any (case and surrounding space ignored).
pub open spec fn bool_flag_value(value: Seq<char>) -> Option<bool> {
    let n = ascii_lower(trim(value));
    if n == "1"@ || n == "true"@ || n == "yes"@ || n == "on"@ {
        Some(true)
    } else if n == "0"@ || n == "false"@ || n == "no"@ || n == "off"@ {
        Some(false)
    } else {
        None
    }
}

/// Reads `1/true/yes/on` as true and `0/false/no/off` as false.
pub fn parse_bool_flag(value: &str, field: &str) -> (r: Result<bool, AliasAdminError>)
    ensures
        match bool_flag_value(value@) {
            Some(b) => r == Ok::<bool, AliasAdminError>(b),
            None => r matches Err(AliasAdminError::InvalidBool { field: f }) && f@ == field@,
        },
{
    let normalized = trim_str(value);
    let lower_chars = vec_ascii_lower(&chars_of(normalized.as_str()));
    let lower = crate::text::string_from_chars(&lower_chars);
    let l = lower.as_str();

    if str_eq(l, "1") || str_eq(l, "true") || str_eq(l, "yes") || str_eq(l, "on") {
        Ok(true)
    } else if str_eq(l, "0") || str_eq(l, "false") || str_eq(l, "no") || str_eq(l, "off") {
        Ok(false)
    } else {
        Err(AliasAdminError::InvalidBool { field: to_owned(field) })
    }
}

} // verus!
