//! `chopper --alias get|add|set|remove`: reading the command words, turning
//! the option list into a mutation, and applying a mutation to an alias
//! document. Reading and writing files stays with the caller.
use crate::alias_admin_validation::{
    bool_flag_value, env_assignment_result, parse_bool_flag, parse_env_assignment, AdminFault,
    AliasAdminError,
};
use crate::alias_validation::{alias_violation, validate_alias_identifier};
use crate::alias_paths::{
    default_exec_config_path, default_exec_path, is_default_exec_config_path, target_path_like_source,
};
use crate::env_map::pair_view;
use crate::journal_validation::opt_string_view;
use crate::alias_doc::{opt_journal_view, AliasDoc, AliasJournalDoc, JournalDocModel};
use crate::env_map::StringMap;
use crate::manifest::clone_opt_string;
use crate::path_mutation::PathMutationConfig;
use crate::shell_text::{shell_join, shell_joined};
use crate::text::{
    clone_strings, concat3, extend_strings, parse_u32, parse_u64, parse_unsigned, str_eq, str_is_blank, strings_contain, to_owned, trim,
    views, join_with,
};
use vstd::prelude::*;

verus! {

/// Whether the options create a new alias or change an existing one.
#[derive(Debug, Clone, Copy, PartialEq, Eq)]
pub enum AliasMutationMode {
    /// `add`
    Add,
    /// `set`
    Edit,
}

/// `remove --mode`: `Clean` drops the configuration and the wrapper,
/// `Dirty` only the wrapper.
#[derive(Debug, Clone, Copy, PartialEq, Eq)]
pub enum RemoveMode {
    Clean,
    Dirty,
}

/// One of the six PATH edit lists of an alias.
#[derive(Debug, Clone, Copy, PartialEq, Eq)]
pub enum PathField {
    RemoveAll,
    RemoveOne,
    AppendAll,
    AppendOne,
    PrependAll,
    PrependOne,
}

pub open spec fn toml_name_of(f: PathField) -> Seq<char> {
    match f {
        PathField::RemoveAll => "path.remove_all"@,
        PathField::RemoveOne => "path.remove_one"@,
        PathField::AppendAll => "path.append_all"@,
        PathField::AppendOne => "path.append_one"@,
        PathField::PrependAll => "path.prepend_all"@,
        PathField::PrependOne => "path.prepend_one"@,
    }
}

pub open spec fn flag_name_of(f: PathField) -> Seq<char> {
    match f {
        PathField::RemoveAll => "--path-remove-all"@,
        PathField::RemoveOne => "--path-remove-one"@,
        PathField::AppendAll => "--path-append-all"@,
        PathField::AppendOne => "--path-append-one"@,
        PathField::PrependAll => "--path-prepend-all"@,
        PathField::PrependOne => "--path-prepend-one"@,
    }
}

/// Position of a field among the six lists, in configuration order.
pub open spec fn field_index(f: PathField) -> int {
    match f {
        PathField::RemoveAll => 0,
        PathField::RemoveOne => 1,
        PathField::AppendAll => 2,
        PathField::AppendOne => 3,
        PathField::PrependAll => 4,
        PathField::PrependOne => 5,
    }
}

impl PathField {
    /// The field's key in the alias TOML document.
    pub fn toml_name(self) -> (r: &'static str)
        ensures
            r@ == toml_name_of(self),
    {
        match self {
            PathField::RemoveAll => "path.remove_all",
            PathField::RemoveOne => "path.remove_one",
            PathField::AppendAll => "path.append_all",
            PathField::AppendOne => "path.append_one",
            PathField::PrependAll => "path.prepend_all",
            PathField::PrependOne => "path.prepend_one",
        }
    }

    /// The command-line option that edits the field.
    pub fn flag_name(self) -> (r: &'static str)
        ensures
            r@ == flag_name_of(self),
    {
        match self {
            PathField::RemoveAll => "--path-remove-all",
            PathField::RemoveOne => "--path-remove-one",
            PathField::AppendAll => "--path-append-all",
            PathField::AppendOne => "--path-append-one",
            PathField::PrependAll => "--path-prepend-all",
            PathField::PrependOne => "--path-prepend-one",
        }
    }
}

/// `set` with a path option: the field gets exactly `values`.
#[derive(Debug, Clone, PartialEq, Eq)]
pub struct PathFieldReplacement {
    pub field: PathField,
    pub values: Vec<String>,
}

/// What `add`/`set` options ask for, in the order they were given.
#[derive(Debug, Clone, PartialEq, Eq)]
pub struct MutationInput {
    pub executable: Option<String>,
    pub args: Vec<String>,
    pub env_set: Vec<(String, String)>,
    pub env_remove: Vec<String>,
    pub path_remove_all: Vec<String>,
    pub path_remove_one: Vec<String>,
    pub path_append_all: Vec<String>,
    pub path_append_one: Vec<String>,
    pub path_prepend_all: Vec<String>,
    pub path_prepend_one: Vec<String>,
    pub path_replacement: Option<PathFieldReplacement>,
    pub journal_namespace: Option<String>,
    pub journal_stderr: Option<bool>,
    pub journal_identifier: Option<String>,
    pub journal_user_scope: Option<bool>,
    pub journal_ensure: Option<bool>,
    pub journal_max_use: Option<String>,
    pub journal_rate_limit_interval_usec: Option<u64>,
    pub journal_rate_limit_burst: Option<u32>,
    pub journal_clear: bool,
    pub no_wrapper_sync: bool,
}

/// A [`MutationInput`] with its strings taken as character sequences.
#[verifier::ext_equal]
pub struct MutationModel {
    pub executable: Option<Seq<char>>,
    pub args: Seq<Seq<char>>,
    pub env_set: Seq<(Seq<char>, Seq<char>)>,
    pub env_remove: Seq<Seq<char>>,
    pub path_remove_all: Seq<Seq<char>>,
    pub path_remove_one: Seq<Seq<char>>,
    pub path_append_all: Seq<Seq<char>>,
    pub path_append_one: Seq<Seq<char>>,
    pub path_prepend_all: Seq<Seq<char>>,
    pub path_prepend_one: Seq<Seq<char>>,
    pub path_replacement: Option<(PathField, Seq<Seq<char>>)>,
    pub journal_namespace: Option<Seq<char>>,
    pub journal_stderr: Option<bool>,
    pub journal_identifier: Option<Seq<char>>,
    pub journal_user_scope: Option<bool>,
    pub journal_ensure: Option<bool>,
    pub journal_max_use: Option<Seq<char>>,
    pub journal_rate_limit_interval_usec: Option<u64>,
    pub journal_rate_limit_burst: Option<u32>,
    pub journal_clear: bool,
    pub no_wrapper_sync: bool,
}

pub open spec fn pair_views(v: Seq<(String, String)>) -> Seq<(Seq<char>, Seq<char>)> {
    v.map_values(|p: (String, String)| pair_view(p))
}

pub open spec fn replacement_view(o: Option<PathFieldReplacement>) -> Option<
    (PathField, Seq<Seq<char>>),
> {
    match o {
        Some(r) => Some((r.field, views(r.values@))),
        None => None,
    }
}

impl View for MutationInput {
    type V = MutationModel;

    open spec fn view(&self) -> MutationModel {
        MutationModel {
            executable: opt_string_view(self.executable),
            args: views(self.args@),
            env_set: pair_views(self.env_set@),
            env_remove: views(self.env_remove@),
            path_remove_all: views(self.path_remove_all@),
            path_remove_one: views(self.path_remove_one@),
            path_append_all: views(self.path_append_all@),
            path_append_one: views(self.path_append_one@),
            path_prepend_all: views(self.path_prepend_all@),
            path_prepend_one: views(self.path_prepend_one@),
            path_replacement: replacement_view(self.path_replacement),
            journal_namespace: opt_string_view(self.journal_namespace),
            journal_stderr: self.journal_stderr,
            journal_identifier: opt_string_view(self.journal_identifier),
            journal_user_scope: self.journal_user_scope,
            journal_ensure: self.journal_ensure,
            journal_max_use: opt_string_view(self.journal_max_use),
            journal_rate_limit_interval_usec: self.journal_rate_limit_interval_usec,
            journal_rate_limit_burst: self.journal_rate_limit_burst,
            journal_clear: self.journal_clear,
            no_wrapper_sync: self.no_wrapper_sync,
        }
    }
}

/// The mutation that asks for nothing.
pub open spec fn empty_mutation() -> MutationModel {
    MutationModel {
        executable: None,
        args: Seq::empty(),
        env_set: Seq::empty(),
        env_remove: Seq::empty(),
        path_remove_all: Seq::empty(),
        path_remove_one: Seq::empty(),
        path_append_all: Seq::empty(),
        path_append_one: Seq::empty(),
        path_prepend_all: Seq::empty(),
        path_prepend_one: Seq::empty(),
        path_replacement: None,
        journal_namespace: None,
        journal_stderr: None,
        journal_identifier: None,
        journal_user_scope: None,
        journal_ensure: None,
        journal_max_use: None,
        journal_rate_limit_interval_usec: None,
        journal_rate_limit_burst: None,
        journal_clear: false,
        no_wrapper_sync: false,
    }
}

/// Some journal field is given (other than `--journal-clear`).
pub open spec fn journal_touched(m: MutationModel) -> bool {
    m.journal_namespace is Some || m.journal_stderr is Some || m.journal_identifier is Some
        || m.journal_user_scope is Some || m.journal_ensure is Some || m.journal_max_use is Some
        || m.journal_rate_limit_interval_usec is Some || m.journal_rate_limit_burst is Some
}

/// Some PATH list is extended.
pub open spec fn has_path_changes(m: MutationModel) -> bool {
    m.path_remove_all.len() > 0 || m.path_remove_one.len() > 0 || m.path_append_all.len() > 0
        || m.path_append_one.len() > 0 || m.path_prepend_all.len() > 0
        || m.path_prepend_one.len() > 0
}

/// The mutation asks for no change at all (`--no-wrapper-sync` is no change).
pub open spec fn mutation_is_empty(m: MutationModel) -> bool {
    m.executable is None && m.args.len() == 0 && m.env_set.len() == 0 && m.env_remove.len() == 0
        && !has_path_changes(m) && m.path_replacement is None && !journal_touched(m)
        && !m.journal_clear
}

impl MutationInput {
    pub fn empty() -> (r: MutationInput)
        ensures
            r@ == empty_mutation(),
    {
        let r = MutationInput {
            executable: None,
            args: Vec::new(),
            env_set: Vec::new(),
            env_remove: Vec::new(),
            path_remove_all: Vec::new(),
            path_remove_one: Vec::new(),
            path_append_all: Vec::new(),
            path_append_one: Vec::new(),
            path_prepend_all: Vec::new(),
            path_prepend_one: Vec::new(),
            path_replacement: None,
            journal_namespace: None,
            journal_stderr: None,
            journal_identifier: None,
            journal_user_scope: None,
            journal_ensure: None,
            journal_max_use: None,
            journal_rate_limit_interval_usec: None,
            journal_rate_limit_burst: None,
            journal_clear: false,
            no_wrapper_sync: false,
        };
        assert(r@ =~= empty_mutation());
        r
    }

    /// No option changes the alias.
    pub fn is_empty(&self) -> (r: bool)
        ensures
            r == mutation_is_empty(self@),
    {
        self.executable.is_none() && self.args.len() == 0 && self.env_set.len() == 0
            && self.env_remove.len() == 0 && !mutation_has_path_changes(self)
            && self.path_replacement.is_none() && self.journal_namespace.is_none()
            && self.journal_stderr.is_none() && self.journal_identifier.is_none()
            && self.journal_user_scope.is_none() && self.journal_ensure.is_none()
            && self.journal_max_use.is_none() && self.journal_rate_limit_interval_usec.is_none()
            && self.journal_rate_limit_burst.is_none() && !self.journal_clear
    }
}

/// Some PATH list option was given.
pub fn mutation_has_path_changes(mutation: &MutationInput) -> (r: bool)
    ensures
        r == has_path_changes(mutation@),
{
    mutation.path_remove_all.len() > 0 || mutation.path_remove_one.len() > 0
        || mutation.path_append_all.len() > 0 || mutation.path_append_one.len() > 0
        || mutation.path_prepend_all.len() > 0 || mutation.path_prepend_one.len() > 0
}

// ---------------------------------------------------------------------------
// Reading the option list
// ---------------------------------------------------------------------------

/// The options of `add` and `set`.
#[derive(Debug, Clone, Copy, PartialEq, Eq)]
pub enum MutationOption {
    Exec,
    Arg,
    Env,
    EnvRemove,
    Path(PathField),
    JournalNamespace,
    JournalStderr,
    JournalIdentifier,
    JournalUserScope,
    JournalEnsure,
    JournalMaxUse,
    JournalRateLimitIntervalUsec,
    JournalRateLimitBurst,
    JournalClear,
    NoWrapperSync,
}

/// The option a word spells, if any.
pub open spec fn mutation_option(w: Seq<char>) -> Option<MutationOption> {
    if w == "--exec"@ {
        Some(MutationOption::Exec)
    } else if w == "--arg"@ {
        Some(MutationOption::Arg)
    } else if w == "--env"@ {
        Some(MutationOption::Env)
    } else if w == "--env-remove"@ {
        Some(MutationOption::EnvRemove)
    } else if w == "--path-remove-all"@ {
        Some(MutationOption::Path(PathField::RemoveAll))
    } else if w == "--path-remove-one"@ {
        Some(MutationOption::Path(PathField::RemoveOne))
    } else if w == "--path-append-all"@ {
        Some(MutationOption::Path(PathField::AppendAll))
    } else if w == "--path-append-one"@ {
        Some(MutationOption::Path(PathField::AppendOne))
    } else if w == "--path-prepend-all"@ {
        Some(MutationOption::Path(PathField::PrependAll))
    } else if w == "--path-prepend-one"@ {
        Some(MutationOption::Path(PathField::PrependOne))
    } else if w == "--journal-namespace"@ {
        Some(MutationOption::JournalNamespace)
    } else if w == "--journal-stderr"@ {
        Some(MutationOption::JournalStderr)
    } else if w == "--journal-identifier"@ {
        Some(MutationOption::JournalIdentifier)
    } else if w == "--journal-user-scope"@ {
        Some(MutationOption::JournalUserScope)
    } else if w == "--journal-ensure"@ {
        Some(MutationOption::JournalEnsure)
    } else if w == "--journal-max-use"@ {
        Some(MutationOption::JournalMaxUse)
    } else if w == "--journal-rate-limit-interval-usec"@ {
        Some(MutationOption::JournalRateLimitIntervalUsec)
    } else if w == "--journal-rate-limit-burst"@ {
        Some(MutationOption::JournalRateLimitBurst)
    } else if w == "--journal-clear"@ {
        Some(MutationOption::JournalClear)
    } else if w == "--no-wrapper-sync"@ {
        Some(MutationOption::NoWrapperSync)
    } else {
        None
    }
}

/// What an option says it needs when its value is missing.
pub open spec fn expectation_of(o: MutationOption) -> Seq<char> {
    match o {
        MutationOption::Env => "KEY=VALUE"@,
        MutationOption::EnvRemove => "a key"@,
        MutationOption::Path(PathField::RemoveAll) => "a regex"@,
        MutationOption::Path(PathField::RemoveOne) => "a regex"@,
        MutationOption::Path(_) => "a path"@,
        MutationOption::JournalStderr => "true/false"@,
        MutationOption::JournalUserScope => "true/false"@,
        MutationOption::JournalEnsure => "true/false"@,
        _ => "a value"@,
    }
}

pub fn classify_mutation_option(w: &str) -> (r: Option<MutationOption>)
    ensures
        r == mutation_option(w@),
{
    if str_eq(w, "--exec") {
        Some(MutationOption::Exec)
    } else if str_eq(w, "--arg") {
        Some(MutationOption::Arg)
    } else if str_eq(w, "--env") {
        Some(MutationOption::Env)
    } else if str_eq(w, "--env-remove") {
        Some(MutationOption::EnvRemove)
    } else if str_eq(w, "--path-remove-all") {
        Some(MutationOption::Path(PathField::RemoveAll))
    } else if str_eq(w, "--path-remove-one") {
        Some(MutationOption::Path(PathField::RemoveOne))
    } else if str_eq(w, "--path-append-all") {
        Some(MutationOption::Path(PathField::AppendAll))
    } else if str_eq(w, "--path-append-one") {
        Some(MutationOption::Path(PathField::AppendOne))
    } else if str_eq(w, "--path-prepend-all") {
        Some(MutationOption::Path(PathField::PrependAll))
    } else if str_eq(w, "--path-prepend-one") {
        Some(MutationOption::Path(PathField::PrependOne))
    } else if str_eq(w, "--journal-namespace") {
        Some(MutationOption::JournalNamespace)
    } else if str_eq(w, "--journal-stderr") {
        Some(MutationOption::JournalStderr)
    } else if str_eq(w, "--journal-identifier") {
        Some(MutationOption::JournalIdentifier)
    } else if str_eq(w, "--journal-user-scope") {
        Some(MutationOption::JournalUserScope)
    } else if str_eq(w, "--journal-ensure") {
        Some(MutationOption::JournalEnsure)
    } else if str_eq(w, "--journal-max-use") {
        Some(MutationOption::JournalMaxUse)
    } else if str_eq(w, "--journal-rate-limit-interval-usec") {
        Some(MutationOption::JournalRateLimitIntervalUsec)
    } else if str_eq(w, "--journal-rate-limit-burst") {
        Some(MutationOption::JournalRateLimitBurst)
    } else if str_eq(w, "--journal-clear") {
        Some(MutationOption::JournalClear)
    } else if str_eq(w, "--no-wrapper-sync") {
        Some(MutationOption::NoWrapperSync)
    } else {
        None
    }
}

fn expectation_text(o: MutationOption) -> (r: String)
    ensures
        r@ == expectation_of(o),
{
    match o {
        MutationOption::Env => to_owned("KEY=VALUE"),
        MutationOption::EnvRemove => to_owned("a key"),
        MutationOption::Path(PathField::RemoveAll) => to_owned("a regex"),
        MutationOption::Path(PathField::RemoveOne) => to_owned("a regex"),
        MutationOption::Path(_) => to_owned("a path"),
        MutationOption::JournalStderr => to_owned("true/false"),
        MutationOption::JournalUserScope => to_owned("true/false"),
        MutationOption::JournalEnsure => to_owned("true/false"),
        _ => to_owned("a value"),
    }
}

/// Adds `v` to the PATH list `f`.
pub open spec fn push_path_value(m: MutationModel, f: PathField, v: Seq<char>) -> MutationModel {
    match f {
        PathField::RemoveAll => MutationModel { path_remove_all: m.path_remove_all.push(v), ..m },
        PathField::RemoveOne => MutationModel { path_remove_one: m.path_remove_one.push(v), ..m },
        PathField::AppendAll => MutationModel { path_append_all: m.path_append_all.push(v), ..m },
        PathField::AppendOne => MutationModel { path_append_one: m.path_append_one.push(v), ..m },
        PathField::PrependAll => MutationModel {
            path_prepend_all: m.path_prepend_all.push(v),
            ..m
        },
        PathField::PrependOne => MutationModel {
            path_prepend_one: m.path_prepend_one.push(v),
            ..m
        },
    }
}

/// Option `o`, spelled `w`, with value `v`, recorded in `m`.
pub open spec fn apply_option_value(
    o: MutationOption,
    w: Seq<char>,
    v: Seq<char>,
    m: MutationModel,
) -> Result<MutationModel, AdminFault> {
    match o {
        MutationOption::Exec => Ok(MutationModel { executable: Some(v), ..m }),
        MutationOption::Arg => Ok(MutationModel { args: m.args.push(v), ..m }),
        MutationOption::Env => match env_assignment_result(v) {
            None => Err(AdminFault::EnvAssignmentForm { value: v }),
            Some((k, x)) => if k.len() == 0 {
                Err(AdminFault::EnvAssignmentBlankKey)
            } else {
                Ok(MutationModel { env_set: m.env_set.push((k, x)), ..m })
            },
        },
        MutationOption::EnvRemove => Ok(MutationModel { env_remove: m.env_remove.push(v), ..m }),
        MutationOption::Path(f) => Ok(push_path_value(m, f, v)),
        MutationOption::JournalNamespace => Ok(MutationModel { journal_namespace: Some(v), ..m }),
        MutationOption::JournalStderr => match bool_flag_value(v) {
            Some(b) => Ok(MutationModel { journal_stderr: Some(b), ..m }),
            None => Err(AdminFault::InvalidBool { field: w }),
        },
        MutationOption::JournalIdentifier => Ok(
            MutationModel { journal_identifier: Some(v), ..m },
        ),
        MutationOption::JournalUserScope => match bool_flag_value(v) {
            Some(b) => Ok(MutationModel { journal_user_scope: Some(b), ..m }),
            None => Err(AdminFault::InvalidBool { field: w }),
        },
        MutationOption::JournalEnsure => match bool_flag_value(v) {
            Some(b) => Ok(MutationModel { journal_ensure: Some(b), ..m }),
            None => Err(AdminFault::InvalidBool { field: w }),
        },
        MutationOption::JournalMaxUse => Ok(MutationModel { journal_max_use: Some(v), ..m }),
        MutationOption::JournalRateLimitIntervalUsec => match parse_unsigned(
            v,
            u64::MAX as nat,
        ) {
            Some(n) => Ok(MutationModel { journal_rate_limit_interval_usec: Some(n as u64), ..m }),
            None => Err(AdminFault::InvalidInteger { option: w }),
        },
        MutationOption::JournalRateLimitBurst => match parse_unsigned(v, u32::MAX as nat) {
            Some(n) => Ok(MutationModel { journal_rate_limit_burst: Some(n as u32), ..m }),
            None => Err(AdminFault::InvalidInteger { option: w }),
        },
        MutationOption::JournalClear => Ok(MutationModel { journal_clear: true, ..m }),
        MutationOption::NoWrapperSync => Ok(MutationModel { no_wrapper_sync: true, ..m }),
    }
}

/// The values of a path replacement: the rest of the words, without one
/// leading `--`.
pub open spec fn replacement_values(rest: Seq<Seq<char>>) -> Seq<Seq<char>> {
    if rest.len() > 0 && rest[0] == "--"@ {
        rest.drop_first()
    } else {
        rest
    }
}

/// Reads the words from `idx` on into `m`. With `set`, a path option takes
/// the rest of the words as the field's new value.
pub open spec fn parse_mutation_from(
    args: Seq<Seq<char>>,
    idx: int,
    mode: AliasMutationMode,
    m: MutationModel,
) -> Result<MutationModel, AdminFault>
    decreases args.len() - idx,
{
    if idx < 0 || idx >= args.len() {
        Ok(m)
    } else {
        let w = args[idx];
        match mutation_option(w) {
            None => Err(AdminFault::UnknownOption { option: w }),
            Some(o) => if o == MutationOption::JournalClear || o == MutationOption::NoWrapperSync {
                match apply_option_value(o, w, Seq::empty(), m) {
                    Ok(m2) => parse_mutation_from(args, idx + 1, mode, m2),
                    Err(e) => Err(e),
                }
            } else if o is Path && mode == AliasMutationMode::Edit {
                Ok(
                    MutationModel {
                        path_replacement: Some(
                            (o->Path_0, replacement_values(args.subrange(idx + 1, args.len() as int))),
                        ),
                        ..m
                    },
                )
            } else if idx + 1 >= args.len() {
                Err(AdminFault::MissingValue { option: w, expected: expectation_of(o) })
            } else {
                match apply_option_value(o, w, args[idx + 1], m) {
                    Ok(m2) => parse_mutation_from(args, idx + 2, mode, m2),
                    Err(e) => Err(e),
                }
            },
        }
    }
}

/// What the option list of `add` (or `set`) asks for.
pub open spec fn mutation_result(args: Seq<Seq<char>>, mode: AliasMutationMode) -> Result<
    MutationModel,
    AdminFault,
> {
    parse_mutation_from(args, 0, mode, empty_mutation())
}

/// Records option `o` (spelled `word`) with value `value` in `m`.
fn apply_value(m: &mut MutationInput, o: MutationOption, word: &str, value: &str) -> (r: Result<
    (),
    AliasAdminError,
>)
    ensures
        match apply_option_value(o, word@, value@, old(m)@) {
            Ok(m2) => r is Ok && final(m)@ == m2,
            Err(e) => r is Err && r->Err_0@ == e && final(m)@ == old(m)@,
        },
{
    let ghost start = m@;
    match o {
        MutationOption::Exec => {
            m.executable = Some(to_owned(value));
        },
        MutationOption::Arg => {
            m.args.push(to_owned(value));
            assert(views(m.args@) =~= start.args.push(value@));
        },
        MutationOption::Env => {
            match parse_env_assignment(value) {
                Ok(pair) => {
                    let ghost pv = pair_view(pair);
                    m.env_set.push(pair);
                    assert(pair_views(m.env_set@) =~= start.env_set.push(pv));
                },
                Err(e) => {
                    return Err(e);
                },
            }
        },
        MutationOption::EnvRemove => {
            m.env_remove.push(to_owned(value));
            assert(views(m.env_remove@) =~= start.env_remove.push(value@));
        },
        MutationOption::Path(f) => {
            match f {
                PathField::RemoveAll => {
                    m.path_remove_all.push(to_owned(value));
                    assert(views(m.path_remove_all@) =~= start.path_remove_all.push(value@));
                },
                PathField::RemoveOne => {
                    m.path_remove_one.push(to_owned(value));
                    assert(views(m.path_remove_one@) =~= start.path_remove_one.push(value@));
                },
                PathField::AppendAll => {
                    m.path_append_all.push(to_owned(value));
                    assert(views(m.path_append_all@) =~= start.path_append_all.push(value@));
                },
                PathField::AppendOne => {
                    m.path_append_one.push(to_owned(value));
                    assert(views(m.path_append_one@) =~= start.path_append_one.push(value@));
                },
                PathField::PrependAll => {
                    m.path_prepend_all.push(to_owned(value));
                    assert(views(m.path_prepend_all@) =~= start.path_prepend_all.push(value@));
                },
                PathField::PrependOne => {
                    m.path_prepend_one.push(to_owned(value));
                    assert(views(m.path_prepend_one@) =~= start.path_prepend_one.push(value@));
                },
            }
        },
        MutationOption::JournalNamespace => {
            m.journal_namespace = Some(to_owned(value));
        },
        MutationOption::JournalStderr => {
            let b = parse_bool_flag(value, word)?;
            m.journal_stderr = Some(b);
        },
        MutationOption::JournalIdentifier => {
            m.journal_identifier = Some(to_owned(value));
        },
        MutationOption::JournalUserScope => {
            let b = parse_bool_flag(value, word)?;
            m.journal_user_scope = Some(b);
        },
        MutationOption::JournalEnsure => {
            let b = parse_bool_flag(value, word)?;
            m.journal_ensure = Some(b);
        },
        MutationOption::JournalMaxUse => {
            m.journal_max_use = Some(to_owned(value));
        },
        MutationOption::JournalRateLimitIntervalUsec => {
            match parse_u64(value) {
                Some(n) => {
                    m.journal_rate_limit_interval_usec = Some(n);
                },
                None => {
                    return Err(AliasAdminError::InvalidInteger { option: to_owned(word) });
                },
            }
        },
        MutationOption::JournalRateLimitBurst => {
            match parse_u32(value) {
                Some(n) => {
                    m.journal_rate_limit_burst = Some(n);
                },
                None => {
                    return Err(AliasAdminError::InvalidInteger { option: to_owned(word) });
                },
            }
        },
        MutationOption::JournalClear => {
            m.journal_clear = true;
        },
        MutationOption::NoWrapperSync => {
            m.no_wrapper_sync = true;
        },
    }
    assert(m@ =~= apply_option_value(o, word@, value@, start)->Ok_0);
    Ok(())
}

/// A copy of the strings of a slice.
pub fn strings_of(s: &[String]) -> (r: Vec<String>)
    ensures
        views(r@) == views(s@),
{
    let mut r: Vec<String> = Vec::new();
    let mut i: usize = 0;
    while i < s.len()
        invariant
            0 <= i <= s.len(),
            views(r@) == views(s@).take(i as int),
        decreases s.len() - i,
    {
        let ghost before = views(r@);
        r.push(s[i].clone());
        assert(views(r@) =~= before.push(s@[i as int]@));
        assert(views(s@).take(i + 1) =~= views(s@).take(i as int).push(s@[i as int]@));
        i = i + 1;
    }
    assert(views(s@).take(s.len() as int) =~= views(s@));
    r
}

/// The new value of a path field under `set`: the given words, without one
/// leading `--`.
pub fn parse_path_replacement(field: PathField, raw_values: &[String]) -> (r: PathFieldReplacement)
    ensures
        r.field == field,
        views(r.values@) == replacement_values(views(raw_values@)),
{
    if raw_values.len() > 0 && str_eq(raw_values[0].as_str(), "--") {
        let rest = &raw_values[1..raw_values.len()];
        let values = strings_of(rest);
        assert(views(rest@) =~= views(raw_values@).drop_first());
        PathFieldReplacement { field, values }
    } else {
        PathFieldReplacement { field, values: strings_of(raw_values) }
    }
}

/// Reads the options of `add` or `set` (the words after the alias name).
pub fn parse_mutation_args(raw_args: &[String], mode: AliasMutationMode) -> (r: Result<
    MutationInput,
    AliasAdminError,
>)
    ensures
        match mutation_result(views(raw_args@), mode) {
            Ok(m) => r is Ok && r->Ok_0@ == m,
            Err(e) => r is Err && r->Err_0@ == e,
        },
{
    let ghost args = views(raw_args@);
    let mut m = MutationInput::empty();
    let mut idx: usize = 0;
    while idx < raw_args.len()
        invariant
            0 <= idx <= raw_args.len(),
            args == views(raw_args@),
            mutation_result(args, mode) == parse_mutation_from(args, idx as int, mode, m@),
        decreases raw_args.len() - idx,
    {
        let word = raw_args[idx].as_str();
        assert(word@ == args[idx as int]);
        match classify_mutation_option(word) {
            None => {
                return Err(AliasAdminError::UnknownOption { option: to_owned(word) });
            },
            Some(o) => {
                if matches!(o, MutationOption::JournalClear) || matches!(
                    o,
                    MutationOption::NoWrapperSync
                ) {
                    apply_value(&mut m, o, word, "")?;
                    idx = idx + 1;
                } else {
                    if let MutationOption::Path(f) = o {
                        if matches!(mode, AliasMutationMode::Edit) {
                            let ghost before = m@;
                            let rest = &raw_args[idx + 1..raw_args.len()];
                            assert(views(rest@) =~= args.subrange(idx + 1, args.len() as int));
                            m.path_replacement = Some(parse_path_replacement(f, rest));
                            assert(m@ =~= (MutationModel {
                                path_replacement: Some(
                                    (f, replacement_values(args.subrange(idx + 1, args.len() as int))),
                                ),
                                ..before
                            }));
                            return Ok(m);
                        }
                    }
                    if idx + 1 >= raw_args.len() {
                        return Err(
                            AliasAdminError::MissingValue {
                                option: to_owned(word),
                                expected: expectation_text(o),
                            },
                        );
                    }
                    apply_value(&mut m, o, word, raw_args[idx + 1].as_str())?;
                    idx = idx + 2;
                }
            },
        }
    }
    Ok(m)
}

// ---------------------------------------------------------------------------
// PATH lists
// ---------------------------------------------------------------------------

/// The six lists of a PATH configuration, in configuration order.
pub open spec fn path_lists(p: PathMutationConfig) -> Seq<Seq<Seq<char>>> {
    seq![
        views(p.remove_all@),
        views(p.remove_one@),
        views(p.append_all@),
        views(p.append_one@),
        views(p.prepend_all@),
        views(p.prepend_one@),
    ]
}

pub open spec fn opt_path_lists(o: Option<PathMutationConfig>) -> Option<Seq<Seq<Seq<char>>>> {
    match o {
        Some(p) => Some(path_lists(p)),
        None => None,
    }
}

/// The six PATH lists a mutation extends, in configuration order.
pub open spec fn mutation_path_lists(m: MutationModel) -> Seq<Seq<Seq<char>>> {
    seq![
        m.path_remove_all,
        m.path_remove_one,
        m.path_append_all,
        m.path_append_one,
        m.path_prepend_all,
        m.path_prepend_one,
    ]
}

pub open spec fn empty_lists() -> Seq<Seq<Seq<char>>> {
    seq![Seq::empty(), Seq::empty(), Seq::empty(), Seq::empty(), Seq::empty(), Seq::empty()]
}

pub open spec fn lists_empty(l: Seq<Seq<Seq<char>>>) -> bool {
    forall|i: int| 0 <= i < l.len() ==> #[trigger] l[i].len() == 0
}

pub open spec fn lists_or_empty(o: Option<Seq<Seq<Seq<char>>>>) -> Seq<Seq<Seq<char>>> {
    match o {
        Some(l) => l,
        None => empty_lists(),
    }
}

/// A configuration whose lists are all empty is no configuration.
pub open spec fn drop_if_empty(l: Seq<Seq<Seq<char>>>) -> Option<Seq<Seq<Seq<char>>>> {
    if lists_empty(l) {
        None
    } else {
        Some(l)
    }
}

/// Each list of `cur` extended by the matching list of `adds`.
pub open spec fn extend_lists(cur: Seq<Seq<Seq<char>>>, adds: Seq<Seq<Seq<char>>>) -> Seq<
    Seq<Seq<char>>,
> {
    Seq::new(6, |i: int| cur[i] + adds[i])
}

/// The PATH configuration after `set` extends it with the mutation's lists.
pub open spec fn extended_path(cur: Option<Seq<Seq<Seq<char>>>>, m: MutationModel) -> Option<
    Seq<Seq<Seq<char>>>,
> {
    if has_path_changes(m) {
        drop_if_empty(extend_lists(lists_or_empty(cur), mutation_path_lists(m)))
    } else {
        cur
    }
}

/// The PATH configuration after `set`: extended, then the replaced field set.
pub open spec fn edited_path(cur: Option<Seq<Seq<Seq<char>>>>, m: MutationModel) -> Option<
    Seq<Seq<Seq<char>>>,
> {
    let p1 = extended_path(cur, m);
    match m.path_replacement {
        None => p1,
        Some((f, values)) => drop_if_empty(lists_or_empty(p1).update(field_index(f), values)),
    }
}

pub open spec fn views_eq(a: Seq<String>, b: Seq<Seq<char>>) -> bool {
    views(a) == b
}

fn clone_path_config(p: &PathMutationConfig) -> (r: PathMutationConfig)
    ensures
        path_lists(r) == path_lists(*p),
{
    PathMutationConfig {
        remove_all: clone_strings(&p.remove_all),
        remove_one: clone_strings(&p.remove_one),
        append_all: clone_strings(&p.append_all),
        append_one: clone_strings(&p.append_one),
        prepend_all: clone_strings(&p.prepend_all),
        prepend_one: clone_strings(&p.prepend_one),
    }
}

fn empty_path_config() -> (r: PathMutationConfig)
    ensures
        path_lists(r) == empty_lists(),
{
    let r = PathMutationConfig {
        remove_all: Vec::new(),
        remove_one: Vec::new(),
        append_all: Vec::new(),
        append_one: Vec::new(),
        prepend_all: Vec::new(),
        prepend_one: Vec::new(),
    };
    assert(views(Seq::<String>::empty()) =~= Seq::<Seq<char>>::empty());
    assert(path_lists(r) =~= empty_lists());
    r
}

fn path_config_is_empty(p: &PathMutationConfig) -> (r: bool)
    ensures
        r == lists_empty(path_lists(*p)),
{
    let r = p.is_empty();
    proof {
        let l = path_lists(*p);
        if !r {
            if p.remove_all@.len() > 0 {
                assert(l[0].len() > 0);
            } else if p.remove_one@.len() > 0 {
                assert(l[1].len() > 0);
            } else if p.append_all@.len() > 0 {
                assert(l[2].len() > 0);
            } else if p.append_one@.len() > 0 {
                assert(l[3].len() > 0);
            } else if p.prepend_all@.len() > 0 {
                assert(l[4].len() > 0);
            } else {
                assert(l[5].len() > 0);
            }
        }
    }
    r
}

/// The PATH lists given with `add` (or extended with `set`), or nothing when
/// no path option was given.
pub fn path_doc_from_mutation(mutation: &MutationInput) -> (r: Option<PathMutationConfig>)
    ensures
        r is None <==> !has_path_changes(mutation@),
        r is Some ==> path_lists(r->Some_0) == mutation_path_lists(mutation@),
{
    if !mutation_has_path_changes(mutation) {
        return None;
    }
    let p = PathMutationConfig {
        remove_all: clone_strings(&mutation.path_remove_all),
        remove_one: clone_strings(&mutation.path_remove_one),
        append_all: clone_strings(&mutation.path_append_all),
        append_one: clone_strings(&mutation.path_append_one),
        prepend_all: clone_strings(&mutation.path_prepend_all),
        prepend_one: clone_strings(&mutation.path_prepend_one),
    };
    assert(path_lists(p) =~= mutation_path_lists(mutation@));
    Some(p)
}

/// The current value of one PATH list.
pub fn path_field_values(path: &PathMutationConfig, field: PathField) -> (r: &Vec<String>)
    ensures
        views(r@) == path_lists(*path)[field_index(field)],
{
    match field {
        PathField::RemoveAll => &path.remove_all,
        PathField::RemoveOne => &path.remove_one,
        PathField::AppendAll => &path.append_all,
        PathField::AppendOne => &path.append_one,
        PathField::PrependAll => &path.prepend_all,
        PathField::PrependOne => &path.prepend_one,
    }
}

/// Sets one PATH list, leaving the others.
pub fn replace_path_field(path: &mut PathMutationConfig, field: PathField, values: Vec<String>)
    ensures
        path_lists(*final(path)) == path_lists(*old(path)).update(
            field_index(field),
            views(values@),
        ),
{
    let ghost before = path_lists(*path);
    match field {
        PathField::RemoveAll => path.remove_all = values,
        PathField::RemoveOne => path.remove_one = values,
        PathField::AppendAll => path.append_all = values,
        PathField::AppendOne => path.append_one = values,
        PathField::PrependAll => path.prepend_all = values,
        PathField::PrependOne => path.prepend_one = values,
    }
    assert(path_lists(*path) =~= before.update(field_index(field), views(values@)));
}

// ---------------------------------------------------------------------------
// Journal settings
// ---------------------------------------------------------------------------

/// A blank identifier or size means "unset".
pub open spec fn unless_blank(o: Option<Seq<char>>) -> Option<Seq<char>> {
    match o {
        Some(v) => if trim(v).len() == 0 {
            None
        } else {
            Some(v)
        },
        None => None,
    }
}

/// The journal section that `add` writes, if any.
pub open spec fn journal_from_mutation(m: MutationModel, allow_none: bool) -> Result<
    Option<JournalDocModel>,
    AdminFault,
> {
    if m.journal_clear {
        Ok(None)
    } else if !journal_touched(m) {
        if allow_none {
            Ok(None)
        } else {
            Err(AdminFault::JournalMutationNeedsNamespace)
        }
    } else {
        match m.journal_namespace {
            None => Err(AdminFault::JournalNamespaceRequired),
            Some(ns) => Ok(
                Some(
                    JournalDocModel {
                        namespace: ns,
                        stderr: match m.journal_stderr {
                            Some(b) => b,
                            None => true,
                        },
                        identifier: unless_blank(m.journal_identifier),
                        user_scope: match m.journal_user_scope {
                            Some(b) => b,
                            None => false,
                        },
                        ensure: match m.journal_ensure {
                            Some(b) => b,
                            None => false,
                        },
                        max_use: m.journal_max_use,
                        rate_limit_interval_usec: m.journal_rate_limit_interval_usec,
                        rate_limit_burst: m.journal_rate_limit_burst,
                    },
                ),
            ),
        }
    }
}

/// The journal section after `set` merges the given fields into it.
pub open spec fn merged_journal(cur: Option<JournalDocModel>, m: MutationModel) -> JournalDocModel {
    let base = match cur {
        Some(j) => j,
        None => JournalDocModel {
            namespace: match m.journal_namespace {
                Some(n) => n,
                None => "default"@,
            },
            stderr: true,
            identifier: None,
            user_scope: false,
            ensure: false,
            max_use: None,
            rate_limit_interval_usec: None,
            rate_limit_burst: None,
        },
    };
    JournalDocModel {
        namespace: match m.journal_namespace {
            Some(n) => n,
            None => base.namespace,
        },
        stderr: match m.journal_stderr {
            Some(b) => b,
            None => base.stderr,
        },
        identifier: match m.journal_identifier {
            Some(_) => unless_blank(m.journal_identifier),
            None => base.identifier,
        },
        user_scope: match m.journal_user_scope {
            Some(b) => b,
            None => base.user_scope,
        },
        ensure: match m.journal_ensure {
            Some(b) => b,
            None => base.ensure,
        },
        max_use: match m.journal_max_use {
            Some(_) => unless_blank(m.journal_max_use),
            None => base.max_use,
        },
        rate_limit_interval_usec: match m.journal_rate_limit_interval_usec {
            Some(n) => Some(n),
            None => base.rate_limit_interval_usec,
        },
        rate_limit_burst: match m.journal_rate_limit_burst {
            Some(n) => Some(n),
            None => base.rate_limit_burst,
        },
    }
}

/// `set` changes only the journal fields it is given: each given field
/// takes its value (a blank identifier or size clears it) and every other
/// field keeps the value of the current section.
pub proof fn lemma_set_changes_only_given_journal_fields(j: JournalDocModel, m: MutationModel)
    ensures
        ({
            let r = merged_journal(Some(j), m);
            &&& r.namespace == (match m.journal_namespace {
                Some(n) => n,
                None => j.namespace,
            })
            &&& r.stderr == (match m.journal_stderr {
                Some(b) => b,
                None => j.stderr,
            })
            &&& r.identifier == (match m.journal_identifier {
                Some(v) => if trim(v).len() == 0 {
                    None
                } else {
                    Some(v)
                },
                None => j.identifier,
            })
            &&& r.user_scope == (match m.journal_user_scope {
                Some(b) => b,
                None => j.user_scope,
            })
            &&& r.ensure == (match m.journal_ensure {
                Some(b) => b,
                None => j.ensure,
            })
            &&& r.max_use == (match m.journal_max_use {
                Some(v) => if trim(v).len() == 0 {
                    None
                } else {
                    Some(v)
                },
                None => j.max_use,
            })
            &&& r.rate_limit_interval_usec == (match m.journal_rate_limit_interval_usec {
                Some(n) => Some(n),
                None => j.rate_limit_interval_usec,
            })
            &&& r.rate_limit_burst == (match m.journal_rate_limit_burst {
                Some(n) => Some(n),
                None => j.rate_limit_burst,
            })
        }),
{
}

/// Without a current section, `set` starts from the defaults: namespace
/// `default` unless given, stderr captured, user scope and ensure off,
/// nothing else set.
pub proof fn lemma_set_starts_journal_from_defaults(m: MutationModel)
    ensures
        ({
            let r = merged_journal(None, m);
            &&& m.journal_namespace is None ==> r.namespace == "default"@
            &&& m.journal_stderr is None ==> r.stderr
            &&& m.journal_identifier is None ==> r.identifier is None
            &&& m.journal_user_scope is None ==> !r.user_scope
            &&& m.journal_ensure is None ==> !r.ensure
            &&& m.journal_max_use is None ==> r.max_use is None
            &&& m.journal_rate_limit_interval_usec is None ==> r.rate_limit_interval_usec is None
            &&& m.journal_rate_limit_burst is None ==> r.rate_limit_burst is None
        }),
{
}

/// The journal section after `set`.
pub open spec fn edited_journal(cur: Option<JournalDocModel>, m: MutationModel) -> Option<
    JournalDocModel,
> {
    if m.journal_clear {
        None
    } else if journal_touched(m) {
        Some(merged_journal(cur, m))
    } else {
        cur
    }
}

/// `set` drops the journal section for `--journal-clear`; otherwise it
/// keeps a current section with the given fields changed, and creates one
/// only when some journal field is given.
pub proof fn lemma_set_journal_section(cur: Option<JournalDocModel>, m: MutationModel)
    ensures
        m.journal_clear ==> edited_journal(cur, m) is None,
        !m.journal_clear && cur is Some ==> edited_journal(cur, m) == Some(merged_journal(cur, m)),
        !m.journal_clear && cur is None ==> (edited_journal(cur, m) is Some <==> (
        m.journal_namespace is Some || m.journal_stderr is Some || m.journal_identifier is Some
            || m.journal_user_scope is Some || m.journal_ensure is Some || m.journal_max_use is Some
            || m.journal_rate_limit_interval_usec is Some || m.journal_rate_limit_burst is Some)),
{
    if !m.journal_clear && cur is Some && !journal_touched(m) {
        lemma_set_changes_only_given_journal_fields(cur->Some_0, m);
        assert(merged_journal(cur, m) == cur->Some_0);
    }
}

fn journal_fields_given(m: &MutationInput) -> (r: bool)
    ensures
        r == journal_touched(m@),
{
    m.journal_namespace.is_some() || m.journal_stderr.is_some() || m.journal_identifier.is_some()
        || m.journal_user_scope.is_some() || m.journal_ensure.is_some()
        || m.journal_max_use.is_some() || m.journal_rate_limit_interval_usec.is_some()
        || m.journal_rate_limit_burst.is_some()
}

fn non_blank_copy(o: &Option<String>) -> (r: Option<String>)
    ensures
        opt_string_view(r) == unless_blank(opt_string_view(*o)),
{
    match o {
        Some(v) => if str_is_blank(v.as_str()) {
            None
        } else {
            Some(v.clone())
        },
        None => None,
    }
}

/// The journal section that `add` writes: `None` when cleared or (with
/// `allow_none`) not asked for; otherwise the namespace is required.
pub fn build_journal_from_mutation(mutation: &MutationInput, allow_none: bool) -> (r: Result<
    Option<AliasJournalDoc>,
    AliasAdminError,
>)
    ensures
        match journal_from_mutation(mutation@, allow_none) {
            Ok(j) => r is Ok && opt_journal_view(r->Ok_0) == j,
            Err(e) => r is Err && r->Err_0@ == e,
        },
{
    if mutation.journal_clear {
        return Ok(None);
    }
    if !journal_fields_given(mutation) {
        if allow_none {
            return Ok(None);
        }
        return Err(AliasAdminError::JournalMutationNeedsNamespace);
    }
    let namespace = match &mutation.journal_namespace {
        Some(n) => n.clone(),
        None => {
            return Err(AliasAdminError::JournalNamespaceRequired);
        },
    };
    let stderr = match mutation.journal_stderr {
        Some(b) => b,
        None => true,
    };
    let user_scope = match mutation.journal_user_scope {
        Some(b) => b,
        None => false,
    };
    let ensure = match mutation.journal_ensure {
        Some(b) => b,
        None => false,
    };
    let j = AliasJournalDoc {
        namespace,
        stderr,
        identifier: non_blank_copy(&mutation.journal_identifier),
        user_scope,
        ensure,
        max_use: clone_opt_string(&mutation.journal_max_use),
        rate_limit_interval_usec: mutation.journal_rate_limit_interval_usec,
        rate_limit_burst: mutation.journal_rate_limit_burst,
    };
    assert(j@ =~= journal_from_mutation(mutation@, allow_none)->Ok_0->Some_0);
    Ok(Some(j))
}

// ---------------------------------------------------------------------------
// Alias documents
// ---------------------------------------------------------------------------

/// `m` with each pair set in turn, later pairs winning.
pub open spec fn insert_pairs(m: Map<Seq<char>, Seq<char>>, pairs: Seq<(Seq<char>, Seq<char>)>) -> Map<
    Seq<char>,
    Seq<char>,
>
    decreases pairs.len(),
{
    if pairs.len() == 0 {
        m
    } else {
        insert_pairs(m, pairs.drop_last()).insert(pairs.last().0, pairs.last().1)
    }
}

/// `list` with each key appended in turn unless it is already there.
pub open spec fn append_missing(list: Seq<Seq<char>>, keys: Seq<Seq<char>>) -> Seq<Seq<char>>
    decreases keys.len(),
{
    if keys.len() == 0 {
        list
    } else {
        let acc = append_missing(list, keys.drop_last());
        if acc.contains(keys.last()) {
            acc
        } else {
            acc.push(keys.last())
        }
    }
}

/// Accepts an alias name or reports the naming rule it breaks.
pub fn validate_alias(alias: &str) -> (r: Result<(), AliasAdminError>)
    ensures
        match alias_violation(alias@) {
            None => r is Ok,
            Some(v) => r is Err && r->Err_0@ == AdminFault::InvalidAlias(v),
        },
{
    match validate_alias_identifier(alias) {
        Ok(()) => Ok(()),
        Err(v) => Err(AliasAdminError::InvalidAlias(v)),
    }
}

/// Where `add` writes a new alias: the canonical path, unless a
/// configuration for the alias was found (`found`).
pub fn add_config_path(config_root: &str, alias: &str, found: bool) -> (r: Result<
    String,
    AliasAdminError,
>)
    ensures
        found ==> r is Err && r->Err_0@ == (AdminFault::AlreadyExists { alias: alias@ }),
        !found ==> r is Ok && r->Ok_0@ == default_exec_path(config_root@, alias@),
{
    if found {
        return Err(AliasAdminError::AlreadyExists { alias: to_owned(alias) });
    }
    Ok(default_exec_config_path(config_root, alias))
}

/// Copying an alias, or moving it to a new name.
#[derive(Debug, Clone, Copy, PartialEq, Eq)]
pub enum AliasTransfer {
    Duplicate,
    Rename,
}

/// The files a duplicate or rename touches.
#[derive(Debug, Clone, PartialEq, Eq)]
pub struct TransferPlan {
    /// The source alias's configuration.
    pub source_path: String,
    /// Where the copy or the moved configuration goes.
    pub target_path: String,
    /// For a duplicate of an alias kept in an older layout: where its
    /// configuration is copied as well, so the source is in the canonical
    /// layout too (the old file stays).
    pub source_canonical_copy: Option<String>,
}

/// What a duplicate or rename from `from` to `to` does, given whether a
/// configuration for `to` was found and where the one of `from` was found:
/// the names are checked, then (for a rename) that they differ, then that
/// `to` is free and `from` exists. The result lands in the canonical layout.
pub open spec fn transfer_plan(
    root: Seq<char>,
    kind: AliasTransfer,
    from: Seq<char>,
    to: Seq<char>,
    target_found: bool,
    source_found: Option<Seq<char>>,
) -> Result<(Seq<char>, Seq<char>, Option<Seq<char>>), AdminFault> {
    match alias_violation(from) {
        Some(v) => Err(AdminFault::InvalidAlias(v)),
        None => match alias_violation(to) {
            Some(v) => Err(AdminFault::InvalidAlias(v)),
            None => if kind == AliasTransfer::Rename && from == to {
                Err(AdminFault::RenameToSelf)
            } else if target_found {
                Err(AdminFault::TargetExists { alias: to })
            } else {
                match source_found {
                    None => Err(AdminFault::SourceMissing { alias: from }),
                    Some(p) => Ok(
                        (
                            p,
                            default_exec_path(root, to),
                            if kind == AliasTransfer::Duplicate && p != default_exec_path(
                                root,
                                from,
                            ) {
                                Some(default_exec_path(root, from))
                            } else {
                                None
                            },
                        ),
                    ),
                }
            },
        },
    }
}

/// Plans a duplicate or rename of `source_alias` to `target_alias` from the
/// answers of the configuration lookups.
pub fn plan_alias_transfer(
    config_root: &str,
    kind: AliasTransfer,
    source_alias: &str,
    target_alias: &str,
    target_found: bool,
    source_found: Option<String>,
) -> (r: Result<TransferPlan, AliasAdminError>)
    ensures
        match transfer_plan(
            config_root@,
            kind,
            source_alias@,
            target_alias@,
            target_found,
            opt_string_view(source_found),
        ) {
            Ok((s, t, c)) => r is Ok && r->Ok_0.source_path@ == s && r->Ok_0.target_path@ == t
                && opt_string_view(r->Ok_0.source_canonical_copy) == c,
            Err(e) => r is Err && r->Err_0@ == e,
        },
{
    validate_alias(source_alias)?;
    validate_alias(target_alias)?;
    let rename = match kind {
        AliasTransfer::Rename => true,
        AliasTransfer::Duplicate => false,
    };
    if rename && str_eq(source_alias, target_alias) {
        return Err(AliasAdminError::RenameToSelf);
    }
    if target_found {
        return Err(AliasAdminError::TargetExists { alias: to_owned(target_alias) });
    }
    let source_path = match source_found {
        None => {
            return Err(AliasAdminError::SourceMissing { alias: to_owned(source_alias) });
        },
        Some(p) => p,
    };
    let target_path = target_path_like_source(
        config_root,
        source_path.as_str(),
        source_alias,
        target_alias,
    );
    let source_canonical_copy = if rename || is_default_exec_config_path(
        config_root,
        source_path.as_str(),
        source_alias,
    ) {
        None
    } else {
        Some(default_exec_config_path(config_root, source_alias))
    };
    Ok(TransferPlan { source_path, target_path, source_canonical_copy })
}

/// The document a new alias starts from: it runs `echo` and sets nothing else.
pub fn minimal_alias_doc() -> (r: AliasDoc)
    ensures
        r.executable@ == "echo"@,
        r.args@.len() == 0,
        r.env@ == Map::<Seq<char>, Seq<char>>::empty(),
        r.env_remove@.len() == 0,
        r.path is None,
        r.journal is None,
        r.reconcile is None,
        r.bashcomp is None,
{
    AliasDoc {
        executable: to_owned("echo"),
        args: Vec::new(),
        env: StringMap::new(),
        env_remove: Vec::new(),
        path: None,
        journal: None,
        reconcile: None,
        bashcomp: None,
    }
}

/// Sets each `(key, value)` of `pairs` in `env`, in order.
fn insert_all(env: &mut StringMap, pairs: &Vec<(String, String)>)
    ensures
        final(env)@ == insert_pairs(old(env)@, pair_views(pairs@)),
{
    let ghost start = env@;
    let ghost pv = pair_views(pairs@);
    let mut i: usize = 0;
    assert(pv.take(0) =~= Seq::<(Seq<char>, Seq<char>)>::empty());
    while i < pairs.len()
        invariant
            0 <= i <= pairs.len(),
            pv == pair_views(pairs@),
            env@ == insert_pairs(start, pv.take(i as int)),
        decreases pairs.len() - i,
    {
        let (k, v) = &pairs[i];
        env.insert(k.clone(), v.clone());
        assert(pv.take(i + 1).drop_last() =~= pv.take(i as int));
        assert(pv.take(i + 1).last() == pair_view(pairs@[i as int]));
        i = i + 1;
    }
    assert(pv.take(pairs.len() as int) =~= pv);
}

/// Appends each key of `keys` to `list` unless `list` already holds it.
fn append_missing_keys(list: &mut Vec<String>, keys: &Vec<String>)
    ensures
        views(final(list)@) == append_missing(views(old(list)@), views(keys@)),
{
    let ghost start = views(list@);
    let ghost kv = views(keys@);
    let mut i: usize = 0;
    assert(kv.take(0) =~= Seq::<Seq<char>>::empty());
    while i < keys.len()
        invariant
            0 <= i <= keys.len(),
            kv == views(keys@),
            views(list@) == append_missing(start, kv.take(i as int)),
        decreases keys.len() - i,
    {
        let key = keys[i].as_str();
        assert(kv.take(i + 1).drop_last() =~= kv.take(i as int));
        assert(kv.take(i + 1).last() == key@);
        if !strings_contain(list, key) {
            let ghost before = views(list@);
            list.push(keys[i].clone());
            assert(views(list@) =~= before.push(key@));
        }
        i = i + 1;
    }
    assert(kv.take(keys.len() as int) =~= kv);
}

/// The alias document that `add` writes.
pub open spec fn add_doc_matches(doc: AliasDoc, m: MutationModel, journal: Option<JournalDocModel>) -> bool {
    &&& m.executable == Some(doc.executable@)
    &&& views(doc.args@) == m.args
    &&& doc.env@ == insert_pairs(Map::empty(), m.env_set)
    &&& views(doc.env_remove@) == m.env_remove
    &&& opt_path_lists(doc.path) == (if has_path_changes(m) {
        Some(mutation_path_lists(m))
    } else {
        None
    })
    &&& opt_journal_view(doc.journal) == journal
    &&& doc.reconcile is None
    &&& doc.bashcomp is None
}

/// The document `add` creates from its options: `--exec` is required, and
/// journal fields need a namespace.
pub fn doc_for_add(mutation: &MutationInput) -> (r: Result<AliasDoc, AliasAdminError>)
    ensures
        mutation@.executable is None ==> r is Err && r->Err_0@ == AdminFault::AddRequiresExec,
        mutation@.executable is Some ==> match journal_from_mutation(mutation@, true) {
            Ok(j) => r is Ok && add_doc_matches(r->Ok_0, mutation@, j),
            Err(e) => r is Err && r->Err_0@ == e,
        },
{
    let executable = match &mutation.executable {
        Some(e) => e.clone(),
        None => {
            return Err(AliasAdminError::AddRequiresExec);
        },
    };
    let path = path_doc_from_mutation(mutation);
    let journal = build_journal_from_mutation(mutation, true)?;
    let mut env = StringMap::new();
    insert_all(&mut env, &mutation.env_set);
    Ok(
        AliasDoc {
            executable,
            args: clone_strings(&mutation.args),
            env,
            env_remove: clone_strings(&mutation.env_remove),
            path,
            journal,
            reconcile: None,
            bashcomp: None,
        },
    )
}

/// What `set` returns besides the edited document: the replaced field and
/// the values it held before.
pub open spec fn replacement_report(
    r: Option<(PathFieldReplacement, Vec<String>)>,
    cur: Option<Seq<Seq<Seq<char>>>>,
    m: MutationModel,
) -> bool {
    match m.path_replacement {
        None => r is None,
        Some((f, values)) => r matches Some((rep, prev)) && rep.field == f && views(rep.values@)
            == values && views(prev@) == lists_or_empty(extended_path(cur, m))[field_index(f)],
    }
}

fn merge_journal_doc(cur: &Option<AliasJournalDoc>, m: &MutationInput) -> (r: AliasJournalDoc)
    ensures
        r@ == merged_journal(opt_journal_view(*cur), m@),
{
    let mut j = match cur {
        Some(j) => j.clone(),
        None => AliasJournalDoc {
            namespace: match &m.journal_namespace {
                Some(n) => n.clone(),
                None => to_owned("default"),
            },
            stderr: true,
            identifier: None,
            user_scope: false,
            ensure: false,
            max_use: None,
            rate_limit_interval_usec: None,
            rate_limit_burst: None,
        },
    };
    if let Some(ns) = &m.journal_namespace {
        j.namespace = ns.clone();
    }
    if let Some(b) = m.journal_stderr {
        j.stderr = b;
    }
    if m.journal_identifier.is_some() {
        j.identifier = non_blank_copy(&m.journal_identifier);
    }
    if let Some(b) = m.journal_user_scope {
        j.user_scope = b;
    }
    if let Some(b) = m.journal_ensure {
        j.ensure = b;
    }
    if m.journal_max_use.is_some() {
        j.max_use = non_blank_copy(&m.journal_max_use);
    }
    if let Some(n) = m.journal_rate_limit_interval_usec {
        j.rate_limit_interval_usec = Some(n);
    }
    if let Some(n) = m.journal_rate_limit_burst {
        j.rate_limit_burst = Some(n);
    }
    assert(j@ =~= merged_journal(opt_journal_view(*cur), m@));
    j
}

fn extend_path_config(path: &mut PathMutationConfig, adds: &PathMutationConfig)
    ensures
        path_lists(*final(path)) == extend_lists(path_lists(*old(path)), path_lists(*adds)),
{
    let ghost before = path_lists(*path);
    extend_strings(&mut path.remove_all, &adds.remove_all);
    extend_strings(&mut path.remove_one, &adds.remove_one);
    extend_strings(&mut path.append_all, &adds.append_all);
    extend_strings(&mut path.append_one, &adds.append_one);
    extend_strings(&mut path.prepend_all, &adds.prepend_all);
    extend_strings(&mut path.prepend_one, &adds.prepend_one);
    assert(path_lists(*path) =~= extend_lists(before, path_lists(*adds)));
}

fn keep_unless_empty(path: PathMutationConfig) -> (r: Option<PathMutationConfig>)
    ensures
        opt_path_lists(r) == drop_if_empty(path_lists(path)),
{
    if path_config_is_empty(&path) {
        None
    } else {
        Some(path)
    }
}

/// Applies `set` options to an alias document. A given `--exec` replaces
/// the command; given `--arg`s replace the arguments; `--env` pairs are set
/// in order; `--env-remove` keys are appended unless present; path options
/// extend the PATH lists, then a path replacement sets its field; a
/// configuration left with only empty lists is dropped; `--journal-clear`
/// drops the journal section, and journal fields are merged into it
/// (blank identifier or size clearing that field). Returns the replaced
/// field with its previous values, if any.
pub fn apply_set_mutation(doc: &mut AliasDoc, mutation: &MutationInput) -> (r: Option<
    (PathFieldReplacement, Vec<String>),
>)
    ensures
        final(doc).executable@ == match mutation@.executable {
            Some(e) => e,
            None => old(doc).executable@,
        },
        views(final(doc).args@) == if mutation@.args.len() > 0 {
            mutation@.args
        } else {
            views(old(doc).args@)
        },
        final(doc).env@ == insert_pairs(old(doc).env@, mutation@.env_set),
        views(final(doc).env_remove@) == append_missing(
            views(old(doc).env_remove@),
            mutation@.env_remove,
        ),
        opt_path_lists(final(doc).path) == edited_path(opt_path_lists(old(doc).path), mutation@),
        opt_journal_view(final(doc).journal) == edited_journal(
            opt_journal_view(old(doc).journal),
            mutation@,
        ),
        final(doc).reconcile == old(doc).reconcile,
        final(doc).bashcomp == old(doc).bashcomp,
        replacement_report(r, opt_path_lists(old(doc).path), mutation@),
{
    let ghost cur = opt_path_lists(doc.path);
    if let Some(e) = &mutation.executable {
        doc.executable = e.clone();
    }
    if mutation.args.len() > 0 {
        doc.args = clone_strings(&mutation.args);
    }
    insert_all(&mut doc.env, &mutation.env_set);
    append_missing_keys(&mut doc.env_remove, &mutation.env_remove);
    if let Some(adds) = path_doc_from_mutation(mutation) {
        let mut path = match &doc.path {
            Some(p) => clone_path_config(p),
            None => empty_path_config(),
        };
        extend_path_config(&mut path, &adds);
        doc.path = keep_unless_empty(path);
    }
    assert(opt_path_lists(doc.path) == extended_path(cur, mutation@));
    let mut replaced: Option<(PathFieldReplacement, Vec<String>)> = None;
    if let Some(replacement) = &mutation.path_replacement {
        let mut path = match &doc.path {
            Some(p) => clone_path_config(p),
            None => empty_path_config(),
        };
        let previous = clone_strings(path_field_values(&path, replacement.field));
        replace_path_field(&mut path, replacement.field, clone_strings(&replacement.values));
        doc.path = keep_unless_empty(path);
        replaced = Some(
            (
                PathFieldReplacement {
                    field: replacement.field,
                    values: clone_strings(&replacement.values),
                },
                previous,
            ),
        );
    }
    if mutation.journal_clear {
        doc.journal = None;
    } else if journal_fields_given(mutation) {
        let j = merge_journal_doc(&doc.journal, mutation);
        doc.journal = Some(j);
    }
    replaced
}

// ---------------------------------------------------------------------------
// Command words
// ---------------------------------------------------------------------------

/// What `chopper --alias ...` asks for.
#[derive(Debug, Clone, PartialEq, Eq)]
pub enum AliasCommand {
    /// The general help text.
    Help,
    /// The help text of one subcommand.
    SubcommandHelp(String),
    /// `get <alias>`
    Get(String),
    /// `add` with the words after it.
    Add(Vec<String>),
    /// `set` with the words after it.
    Edit(Vec<String>),
    /// `remove` with the words after it.
    Remove(Vec<String>),
}

pub open spec fn is_help_word(w: Seq<char>) -> bool {
    w == "-h"@ || w == "--help"@ || w == "help"@
}

pub open spec fn is_subcommand(w: Seq<char>) -> bool {
    w == "get"@ || w == "add"@ || w == "set"@ || w == "remove"@
}

/// The second word asks for the subcommand's help.
pub open spec fn asks_help(raw: Seq<Seq<char>>) -> bool {
    raw.len() > 1 && raw[1] == "--help"@
}

proof fn lemma_command_words_distinct()
    ensures
        !is_subcommand("-h"@) && !is_subcommand("--help"@) && !is_subcommand("help"@),
        "get"@ != "add"@ && "get"@ != "set"@ && "get"@ != "remove"@,
        "add"@ != "set"@ && "add"@ != "remove"@ && "set"@ != "remove"@,
{
    reveal_strlit("-h");
    reveal_strlit("--help");
    reveal_strlit("help");
    reveal_strlit("get");
    reveal_strlit("add");
    reveal_strlit("set");
    reveal_strlit("remove");
    assert("-h"@.len() == 2 && "--help"@.len() == 6 && "help"@.len() == 4);
    assert("get"@.len() == 3 && "add"@.len() == 3 && "set"@.len() == 3);
    assert("remove"@[0] != "--help"@[0]);
    assert("help"@[0] != "get"@[0] && "help"@[0] != "add"@[0] && "help"@[0] != "set"@[0]);
    assert("get"@[0] != "add"@[0] && "get"@[0] != "set"@[0] && "add"@[0] != "set"@[0]);
}

/// Reads the words after `--alias`.
pub fn parse_alias_command(raw_args: &[String]) -> (r: Result<AliasCommand, AliasAdminError>)
    ensures
        ({
            let raw = views(raw_args@);
            &&& raw.len() == 0 ==> r == Ok::<AliasCommand, AliasAdminError>(AliasCommand::Help)
            &&& raw.len() > 0 && is_help_word(raw[0]) ==> if raw.len() > 1 {
                r matches Ok(AliasCommand::SubcommandHelp(s)) && s@ == raw[1]
            } else {
                r == Ok::<AliasCommand, AliasAdminError>(AliasCommand::Help)
            }
            &&& raw.len() > 0 && is_subcommand(raw[0]) && asks_help(raw) ==> (r matches Ok(
                AliasCommand::SubcommandHelp(s),
            ) && s@ == raw[0])
            &&& raw.len() > 0 && raw[0] == "get"@ && !asks_help(raw) ==> if raw.len() != 2 {
                r is Err && r->Err_0@ == AdminFault::Usage {
                    usage: "chopper --alias get <alias>"@,
                }
            } else {
                match alias_violation(raw[1]) {
                    Some(v) => r is Err && r->Err_0@ == AdminFault::InvalidAlias(v),
                    None => r matches Ok(AliasCommand::Get(a)) && a@ == raw[1],
                }
            }
            &&& raw.len() > 0 && raw[0] == "add"@ && !asks_help(raw) ==> (r matches Ok(
                AliasCommand::Add(rest),
            ) && views(rest@) == raw.drop_first())
            &&& raw.len() > 0 && raw[0] == "set"@ && !asks_help(raw) ==> (r matches Ok(
                AliasCommand::Edit(rest),
            ) && views(rest@) == raw.drop_first())
            &&& raw.len() > 0 && raw[0] == "remove"@ && !asks_help(raw) ==> (r matches Ok(
                AliasCommand::Remove(rest),
            ) && views(rest@) == raw.drop_first())
            &&& raw.len() > 0 && !is_help_word(raw[0]) && !is_subcommand(raw[0]) ==> r is Err
                && r->Err_0@ == AdminFault::UnknownSubcommand { name: raw[0] }
        }),
{
    let ghost raw = views(raw_args@);
    proof {
        lemma_command_words_distinct();
    }
    if raw_args.len() == 0 {
        return Ok(AliasCommand::Help);
    }
    let first = raw_args[0].as_str();
    assert(first@ == raw[0]);
    if str_eq(first, "-h") || str_eq(first, "--help") || str_eq(first, "help") {
        if raw_args.len() > 1 {
            return Ok(AliasCommand::SubcommandHelp(raw_args[1].clone()));
        }
        return Ok(AliasCommand::Help);
    }
    let is_sub = str_eq(first, "get") || str_eq(first, "add") || str_eq(first, "set") || str_eq(
        first,
        "remove",
    );
    if !is_sub {
        return Err(AliasAdminError::UnknownSubcommand { name: to_owned(first) });
    }
    if raw_args.len() > 1 && str_eq(raw_args[1].as_str(), "--help") {
        return Ok(AliasCommand::SubcommandHelp(to_owned(first)));
    }
    let rest_slice = &raw_args[1..raw_args.len()];
    assert(views(rest_slice@) =~= raw.drop_first());
    if str_eq(first, "get") {
        if raw_args.len() != 2 {
            return Err(AliasAdminError::Usage { usage: to_owned("chopper --alias get <alias>") });
        }
        let alias = raw_args[1].as_str();
        validate_alias(alias)?;
        Ok(AliasCommand::Get(to_owned(alias)))
    } else if str_eq(first, "add") {
        Ok(AliasCommand::Add(strings_of(rest_slice)))
    } else if str_eq(first, "set") {
        Ok(AliasCommand::Edit(strings_of(rest_slice)))
    } else {
        Ok(AliasCommand::Remove(strings_of(rest_slice)))
    }
}

pub open spec fn mutation_usage(mode: AliasMutationMode) -> Seq<char> {
    match mode {
        AliasMutationMode::Add => "chopper --alias add <alias> --exec <command> ..."@,
        AliasMutationMode::Edit => "chopper --alias set <alias> [options]"@,
    }
}

/// What the words after `add`/`set` ask for: the alias and its mutation.
pub open spec fn add_or_set_result(raw: Seq<Seq<char>>, mode: AliasMutationMode) -> Result<
    (Seq<char>, MutationModel),
    AdminFault,
> {
    if raw.len() == 0 {
        Err(AdminFault::Usage { usage: mutation_usage(mode) })
    } else {
        match alias_violation(raw[0]) {
            Some(v) => Err(AdminFault::InvalidAlias(v)),
            None => match mutation_result(raw.drop_first(), mode) {
                Err(e) => Err(e),
                Ok(m) => if mode == AliasMutationMode::Edit && mutation_is_empty(m) {
                    Err(AdminFault::NoChanges { alias: raw[0] })
                } else {
                    Ok((raw[0], m))
                },
            },
        }
    }
}

/// Reads the words after `add` or `set`: the alias name, then its options;
/// `set` must change something.
pub fn parse_add_or_set(mode: AliasMutationMode, raw_args: &[String]) -> (r: Result<
    (String, MutationInput),
    AliasAdminError,
>)
    ensures
        match add_or_set_result(views(raw_args@), mode) {
            Ok((alias, m)) => r is Ok && r->Ok_0.0@ == alias && r->Ok_0.1@ == m,
            Err(e) => r is Err && r->Err_0@ == e,
        },
{
    if raw_args.len() == 0 {
        let usage = match mode {
            AliasMutationMode::Add => to_owned("chopper --alias add <alias> --exec <command> ..."),
            AliasMutationMode::Edit => to_owned("chopper --alias set <alias> [options]"),
        };
        return Err(AliasAdminError::Usage { usage });
    }
    let alias = raw_args[0].as_str();
    validate_alias(alias)?;
    let rest = &raw_args[1..raw_args.len()];
    assert(views(rest@) =~= views(raw_args@).drop_first());
    let mutation = parse_mutation_args(rest, mode)?;
    if matches!(mode, AliasMutationMode::Edit) && mutation.is_empty() {
        return Err(AliasAdminError::NoChanges { alias: to_owned(alias) });
    }
    Ok((to_owned(alias), mutation))
}

/// What `remove` asks for.
#[derive(Debug, Clone, PartialEq, Eq)]
pub struct RemoveRequest {
    pub alias: String,
    pub mode: RemoveMode,
    pub symlink_path: Option<String>,
    pub no_wrapper_sync: bool,
}

/// Reads `remove` options from `idx` on into (mode, symlink path,
/// no-wrapper-sync).
pub open spec fn parse_remove_from(
    args: Seq<Seq<char>>,
    idx: int,
    st: (RemoveMode, Option<Seq<char>>, bool),
) -> Result<(RemoveMode, Option<Seq<char>>, bool), AdminFault>
    decreases args.len() - idx,
{
    if idx < 0 || idx >= args.len() {
        Ok(st)
    } else {
        let w = args[idx];
        if w == "--mode"@ {
            if idx + 1 >= args.len() {
                Err(AdminFault::MissingValue { option: "--mode"@, expected: "a value"@ })
            } else if args[idx + 1] == "clean"@ {
                parse_remove_from(args, idx + 2, (RemoveMode::Clean, st.1, st.2))
            } else if args[idx + 1] == "dirty"@ {
                parse_remove_from(args, idx + 2, (RemoveMode::Dirty, st.1, st.2))
            } else {
                Err(AdminFault::UnknownRemoveMode { mode: args[idx + 1] })
            }
        } else if w == "--symlink-path"@ {
            if idx + 1 >= args.len() {
                Err(AdminFault::MissingValue { option: "--symlink-path"@, expected: "a value"@ })
            } else {
                parse_remove_from(args, idx + 2, (st.0, Some(args[idx + 1]), st.2))
            }
        } else if w == "--no-wrapper-sync"@ {
            parse_remove_from(args, idx + 1, (st.0, st.1, true))
        } else {
            Err(AdminFault::UnknownRemoveOption { option: w })
        }
    }
}

/// What the words after `remove` ask for.
pub open spec fn remove_result(raw: Seq<Seq<char>>) -> Result<
    (Seq<char>, RemoveMode, Option<Seq<char>>, bool),
    AdminFault,
> {
    if raw.len() == 0 {
        Err(
            AdminFault::Usage {
                usage: "chopper --alias remove <alias> [--mode clean|dirty] [--symlink-path <path>] [--no-wrapper-sync]"@,
            },
        )
    } else {
        match alias_violation(raw[0]) {
            Some(v) => Err(AdminFault::InvalidAlias(v)),
            None => match parse_remove_from(raw, 1, (RemoveMode::Clean, None, false)) {
                Err(e) => Err(e),
                Ok((mode, path, no_sync)) => if mode == RemoveMode::Dirty && no_sync {
                    Err(AdminFault::DirtyWithoutWrapperSync)
                } else {
                    Ok((raw[0], mode, path, no_sync))
                },
            },
        }
    }
}

/// Reads the words after `remove`: the alias, then `--mode clean|dirty`,
/// `--symlink-path <path>` and `--no-wrapper-sync` in any order.
pub fn parse_remove_args(raw_args: &[String]) -> (r: Result<RemoveRequest, AliasAdminError>)
    ensures
        match remove_result(views(raw_args@)) {
            Ok((alias, mode, path, no_sync)) => r is Ok && r->Ok_0.alias@ == alias
                && r->Ok_0.mode == mode && opt_string_view(r->Ok_0.symlink_path) == path
                && r->Ok_0.no_wrapper_sync == no_sync,
            Err(e) => r is Err && r->Err_0@ == e,
        },
{
    let ghost raw = views(raw_args@);
    if raw_args.len() == 0 {
        return Err(
            AliasAdminError::Usage {
                usage: to_owned(
                    "chopper --alias remove <alias> [--mode clean|dirty] [--symlink-path <path>] [--no-wrapper-sync]",
                ),
            },
        );
    }
    let alias = raw_args[0].as_str();
    validate_alias(alias)?;
    let mut mode = RemoveMode::Clean;
    let mut symlink_path: Option<String> = None;
    let mut no_wrapper_sync = false;
    let mut idx: usize = 1;
    while idx < raw_args.len()
        invariant
            1 <= idx <= raw_args.len(),
            raw == views(raw_args@),
            raw.len() > 0,
            alias_violation(raw[0]) is None,
            parse_remove_from(raw, 1, (RemoveMode::Clean, None, false)) == parse_remove_from(
                raw,
                idx as int,
                (mode, opt_string_view(symlink_path), no_wrapper_sync),
            ),
        decreases raw_args.len() - idx,
    {
        let word = raw_args[idx].as_str();
        assert(word@ == raw[idx as int]);
        if str_eq(word, "--mode") {
            if idx + 1 >= raw_args.len() {
                return Err(
                    AliasAdminError::MissingValue {
                        option: to_owned("--mode"),
                        expected: to_owned("a value"),
                    },
                );
            }
            let value = raw_args[idx + 1].as_str();
            assert(value@ == raw[idx + 1]);
            if str_eq(value, "clean") {
                mode = RemoveMode::Clean;
            } else if str_eq(value, "dirty") {
                mode = RemoveMode::Dirty;
            } else {
                return Err(AliasAdminError::UnknownRemoveMode { mode: to_owned(value) });
            }
            idx = idx + 2;
        } else if str_eq(word, "--symlink-path") {
            if idx + 1 >= raw_args.len() {
                return Err(
                    AliasAdminError::MissingValue {
                        option: to_owned("--symlink-path"),
                        expected: to_owned("a value"),
                    },
                );
            }
            symlink_path = Some(raw_args[idx + 1].clone());
            idx = idx + 2;
        } else if str_eq(word, "--no-wrapper-sync") {
            no_wrapper_sync = true;
            idx = idx + 1;
        } else {
            return Err(AliasAdminError::UnknownRemoveOption { option: to_owned(word) });
        }
    }
    if matches!(mode, RemoveMode::Dirty) && no_wrapper_sync {
        return Err(AliasAdminError::DirtyWithoutWrapperSync);
    }
    Ok(RemoveRequest { alias: to_owned(alias), mode, symlink_path, no_wrapper_sync })
}

/// A removal that removed nothing fails; with `Dirty` the wrapper was the
/// only thing to remove.
pub fn removal_outcome(mode: RemoveMode, removed_any: bool, alias: &str) -> (r: Result<(), AliasAdminError>)
    ensures
        removed_any ==> r is Ok,
        !removed_any && mode == RemoveMode::Dirty ==> r is Err && r->Err_0@
            == AdminFault::KeepConfigsNeedsWrapper,
        !removed_any && mode == RemoveMode::Clean ==> r is Err && r->Err_0@
            == (AdminFault::NothingRemoved { alias: alias@ }),
{
    if removed_any {
        return Ok(());
    }
    match mode {
        RemoveMode::Dirty => Err(AliasAdminError::KeepConfigsNeedsWrapper),
        RemoveMode::Clean => Err(AliasAdminError::NothingRemoved { alias: to_owned(alias) }),
    }
}

/// A lower-case hexadecimal digit for `n < 16`.
pub open spec fn hex_digit(n: u32) -> char {
    if n < 10 {
        (('0' as u32) + n) as char
    } else {
        (('a' as u32) + n - 10) as char
    }
}

/// How JSON writes one character inside a string: `"` and `\` and the
/// control characters below U+0020 are escaped (the common ones by letter,
/// the rest as `\u00XX`); every other character stands as it is.
pub open spec fn json_escape_char(c: char) -> Seq<char> {
    if c == '"' {
        seq!['\\', '"']
    } else if c == '\\' {
        seq!['\\', '\\']
    } else if c == '\u{8}' {
        seq!['\\', 'b']
    } else if c == '\t' {
        seq!['\\', 't']
    } else if c == '\n' {
        seq!['\\', 'n']
    } else if c == '\u{c}' {
        seq!['\\', 'f']
    } else if c == '\r' {
        seq!['\\', 'r']
    } else if (c as u32) < 0x20 {
        seq!['\\', 'u', '0', '0', hex_digit((c as u32) / 16), hex_digit((c as u32) % 16)]
    } else {
        seq![c]
    }
}

/// The characters of `s`, each escaped as in a JSON string.
pub open spec fn json_escaped(s: Seq<char>) -> Seq<char>
    decreases s.len(),
{
    if s.len() == 0 {
        Seq::empty()
    } else {
        json_escaped(s.drop_last()) + json_escape_char(s.last())
    }
}

/// A JSON string literal holding `s`.
pub open spec fn json_string(s: Seq<char>) -> Seq<char> {
    seq!['"'] + json_escaped(s) + seq!['"']
}

/// The compact JSON array of the strings `values`: `[` and `]` around the
/// string literals, separated by `,`.
pub open spec fn json_string_array(values: Seq<Seq<char>>) -> Seq<char> {
    seq!['['] + join_with(values.map_values(|v: Seq<char>| json_string(v)), seq![',']) + seq![']']
}

/// `serde_json::to_string` on a list of strings. Its documentation names
/// two causes of failure, a `Serialize` impl that fails and a map with
/// non-string keys; a `Vec<String>` has neither, and the output goes to an
/// in-memory buffer, so it always succeeds. The compact formatter writes
/// the array as `json_string_array` says (its `ESCAPE` table and
/// `write_char_escape`).
#[verifier::external_body]
fn json_encode_strings(values: &Vec<String>) -> (r: Option<String>)
    ensures
        r is Some,
        r matches Some(s) ==> s@ == json_string_array(views(values@)),
{
    serde_json::to_string(values).ok()
}

/// The words of the `set` command that puts a replaced field back.
pub open spec fn restore_words(alias: Seq<char>, f: PathField, previous: Seq<Seq<char>>) -> Seq<
    Seq<char>,
> {
    seq!["chopper"@, "--alias"@, "set"@, alias, flag_name_of(f), "--"@] + previous
}

/// The three lines reported after `set` replaced a path field: its new value
/// as JSON, a heading, and the shell command that
/// restores the previous value.
pub fn path_replacement_summary(
    alias: &str,
    replacement: &PathFieldReplacement,
    previous: &Vec<String>,
) -> (r: Vec<String>)
    ensures
        r@.len() == 3,
        r@[0]@ == "new value of "@ + toml_name_of(replacement.field) + ": "@ + json_string_array(
            views(replacement.values@),
        ),
        r@[1]@ == "restore previous value with:"@,
        r@[2]@ == shell_joined(restore_words(alias@, replacement.field, views(previous@))),
{
    let json = json_encode_strings(&replacement.values).unwrap();
    let mut first = concat3("new value of ", replacement.field.toml_name(), ": ");
    first.append(json.as_str());
    let mut words: Vec<String> = Vec::new();
    words.push(to_owned("chopper"));
    words.push(to_owned("--alias"));
    words.push(to_owned("set"));
    words.push(to_owned(alias));
    words.push(to_owned(replacement.field.flag_name()));
    words.push(to_owned("--"));
    let ghost head = views(words@);
    extend_strings(&mut words, previous);
    assert(head =~= seq!["chopper"@, "--alias"@, "set"@, alias@, flag_name_of(replacement.field), "--"@]);
    let line = shell_join(&words);
    let mut r: Vec<String> = Vec::new();
    r.push(first);
    r.push(to_owned("restore previous value with:"));
    r.push(line);
    r
}

proof fn lemma_flag_names_classify(f: PathField)
    ensures
        mutation_option(flag_name_of(f)) == Some(MutationOption::Path(f)),
{
    reveal_strlit("--exec");
    reveal_strlit("--arg");
    reveal_strlit("--env");
    reveal_strlit("--env-remove");
    reveal_strlit("--path-remove-all");
    reveal_strlit("--path-remove-one");
    reveal_strlit("--path-append-all");
    reveal_strlit("--path-append-one");
    reveal_strlit("--path-prepend-all");
    reveal_strlit("--path-prepend-one");
    assert("--exec"@.len() == 6 && "--arg"@.len() == 5 && "--env"@.len() == 5);
    assert("--env-remove"@.len() == 12);
    assert("--path-remove-all"@.len() == 17 && "--path-remove-one"@.len() == 17);
    assert("--path-append-all"@.len() == 17 && "--path-append-one"@.len() == 17);
    assert("--path-prepend-all"@.len() == 18 && "--path-prepend-one"@.len() == 18);
    assert("--path-remove-all"@[7] == 'r' && "--path-remove-one"@[7] == 'r');
    assert("--path-append-all"@[7] == 'a' && "--path-append-one"@[7] == 'a');
    assert("--path-remove-all"@[16] == 'l' && "--path-remove-one"@[16] == 'e');
    assert("--path-append-all"@[16] == 'l' && "--path-append-one"@[16] == 'e');
    assert("--path-prepend-all"@[17] == 'l' && "--path-prepend-one"@[17] == 'e');
}

/// The restore command that `set` prints after replacing a path field,
/// read back by `set`, asks to put exactly the previous values into that
/// field and nothing else.
pub proof fn lemma_restore_words_parse(alias: Seq<char>, f: PathField, previous: Seq<Seq<char>>)
    requires
        alias_violation(alias) is None,
    ensures
        ({
            let words = restore_words(alias, f, previous);
            add_or_set_result(words.subrange(3, words.len() as int), AliasMutationMode::Edit)
                == Ok::<(Seq<char>, MutationModel), AdminFault>(
                (alias, MutationModel { path_replacement: Some((f, previous)), ..empty_mutation() }),
            )
        }),
{
    let words = restore_words(alias, f, previous);
    let raw = words.subrange(3, words.len() as int);
    let args = raw.drop_first();
    assert(args =~= seq![flag_name_of(f), "--"@] + previous);
    lemma_flag_names_classify(f);
    assert(args.subrange(1, args.len() as int) =~= seq!["--"@] + previous);
    assert((seq!["--"@] + previous).drop_first() =~= previous);
    assert(raw[0] == alias);
}

/// A PATH configuration as stored: six lists, not all empty.
pub open spec fn stored_path(cur: Option<Seq<Seq<Seq<char>>>>) -> bool {
    cur matches Some(l) ==> l.len() == 6 && !lists_empty(l)
}

/// After `set` replaced a path field (and extended no list), running the
/// restore command it prints puts the PATH configuration back as it was.
pub proof fn lemma_restore_command_undoes_replacement(
    alias: Seq<char>,
    cur: Option<Seq<Seq<Seq<char>>>>,
    m: MutationModel,
)
    requires
        alias_violation(alias) is None,
        m.path_replacement is Some,
        !has_path_changes(m),
        stored_path(cur),
    ensures
        ({
            let f = m.path_replacement->Some_0.0;
            let previous = lists_or_empty(extended_path(cur, m))[field_index(f)];
            let words = restore_words(alias, f, previous);
            let parsed = add_or_set_result(words.subrange(3, words.len() as int), AliasMutationMode::Edit);
            &&& parsed is Ok
            &&& parsed->Ok_0.0 == alias
            &&& edited_path(edited_path(cur, m), parsed->Ok_0.1) == cur
        }),
{
    let (f, values) = m.path_replacement->Some_0;
    let i = field_index(f);
    let p = lists_or_empty(cur);
    assert(extended_path(cur, m) == cur);
    let previous = p[i];
    lemma_restore_words_parse(alias, f, previous);
    let undo = MutationModel { path_replacement: Some((f, previous)), ..empty_mutation() };
    assert(!has_path_changes(undo));
    let after = edited_path(cur, m);
    assert(after == drop_if_empty(p.update(i, values)));
    assert(extended_path(after, undo) == after);
    if lists_empty(p.update(i, values)) {
        assert(lists_or_empty(after) == empty_lists());
        assert(empty_lists().update(i, previous) =~= p) by {
            assert forall|j: int| 0 <= j < 6 && j != i implies p[j].len() == 0 by {
                assert(p.update(i, values)[j] == p[j]);
            }
            assert forall|j: int| 0 <= j < 6 && j != i implies p[j] =~= Seq::<Seq<char>>::empty() by {
                assert(p.update(i, values)[j] == p[j]);
            }
        }
    } else {
        assert(p.update(i, values).update(i, previous) =~= p);
    }
    if cur is None {
        assert(lists_empty(p));
    }
}

} // verus!
