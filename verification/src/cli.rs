//! The launcher's command line: which alias runs with which arguments,
//! whether the words ask for a built-in action instead, and the small
//! option lists of the built-ins.
use crate::alias_admin_validation::alias_violation_message;
use crate::alias_validation::{alias_violation, validate_alias_identifier, AliasViolation};
use crate::manifest::BashcompConfig;
use crate::text::{
    ascii_lower, chars_of, concat3, contains_char, parse_u64, parse_unsigned, split_on,
    split_str, str_eq, string_from_chars, to_owned, trim_end_matches2, trim_end_matches_str2,
    vec_ascii_lower, views,
};
use crate::tui_state::TuiOptions;
use vstd::prelude::*;

verus! {

/// The two launchers: `chopper` (with built-ins) and `chopper-exe`.
#[derive(Debug, Clone, Copy, PartialEq, Eq)]
pub enum Launcher {
    Chopper,
    ChopperExe,
}

pub open spec fn default_name(l: Launcher) -> Seq<char> {
    match l {
        Launcher::Chopper => "chopper"@,
        Launcher::ChopperExe => "chopper-exe"@,
    }
}

fn default_name_text(l: Launcher) -> (r: String)
    ensures
        r@ == default_name(l),
{
    match l {
        Launcher::Chopper => to_owned("chopper"),
        Launcher::ChopperExe => to_owned("chopper-exe"),
    }
}

/// The last `/`-separated part of `raw`, trailing `/` ignored.
pub open spec fn basename_of(raw: Seq<char>) -> Seq<char> {
    if raw.contains('/') {
        split_on(trim_end_matches2(raw, '/', '/'), '/').last()
    } else {
        raw
    }
}

/// The name the launcher was started under: the base name of the first
/// word, or the launcher's own name when there is none or it is empty,
/// `.` or `..`.
pub open spec fn exe_name(args: Seq<Seq<char>>, l: Launcher) -> Seq<char> {
    let raw = if args.len() > 0 {
        args[0]
    } else {
        default_name(l)
    };
    let b = basename_of(raw);
    if b.len() == 0 || b == "."@ || b == ".."@ {
        default_name(l)
    } else {
        b
    }
}

pub fn invocation_executable_name(args: &[String], launcher: Launcher) -> (r: String)
    ensures
        r@ == exe_name(views(args@), launcher),
{
    let raw = if args.len() > 0 {
        args[0].clone()
    } else {
        default_name_text(launcher)
    };
    let b = if contains_char(raw.as_str(), '/') {
        let trimmed = trim_end_matches_str2(raw.as_str(), '/', '/');
        let parts = split_str(trimmed.as_str(), '/');
        proof {
            crate::text::lemma_split_nonempty(trimmed@, '/', '/');
        }
        let last = parts[parts.len() - 1].clone();
        assert(last@ == split_on(trimmed@, '/').last());
        last
    } else {
        raw
    };
    if chars_of(b.as_str()).len() == 0 || str_eq(b.as_str(), ".") || str_eq(b.as_str(), "..") {
        default_name_text(launcher)
    } else {
        b
    }
}

/// Whether a name starts the launcher directly (ASCII case ignored).
pub open spec fn is_direct_name(name: Seq<char>, l: Launcher) -> bool {
    match l {
        Launcher::Chopper => ascii_lower(name) == "chopper"@,
        Launcher::ChopperExe => ascii_lower(name) == "chopper-exe"@ || ascii_lower(name)
            == "chopper_exe"@,
    }
}

pub fn is_direct_launcher_name(name: &str, launcher: Launcher) -> (r: bool)
    ensures
        r == is_direct_name(name@, launcher),
{
    let lower = string_from_chars(&vec_ascii_lower(&chars_of(name)));
    match launcher {
        Launcher::Chopper => str_eq(lower.as_str(), "chopper"),
        Launcher::ChopperExe => str_eq(lower.as_str(), "chopper-exe") || str_eq(
            lower.as_str(),
            "chopper_exe",
        ),
    }
}

/// The arguments after one leading `--` is dropped.
pub open spec fn passthrough(args: Seq<Seq<char>>) -> Seq<Seq<char>> {
    if args.len() > 0 && args[0] == "--"@ {
        args.drop_first()
    } else {
        args
    }
}

pub fn normalize_passthrough(args: &[String]) -> (r: Vec<String>)
    ensures
        views(r@) == passthrough(views(args@)),
{
    if args.len() > 0 && str_eq(args[0].as_str(), "--") {
        let rest = &args[1..args.len()];
        assert(views(rest@) =~= views(args@).drop_first());
        crate::alias_admin::strings_of(rest)
    } else {
        crate::alias_admin::strings_of(args)
    }
}

/// Only a leading `--` is dropped: the passthrough words are the given words
/// or all but the first, and the first goes exactly when it is `--`.
pub proof fn lemma_passthrough_drops_only_a_leading_separator(rest: Seq<Seq<char>>)
    ensures
        passthrough(rest) == rest.subrange(rest.len() - passthrough(rest).len(), rest.len() as int),
        passthrough(rest).len() <= rest.len() <= passthrough(rest).len() + 1,
        passthrough(rest).len() < rest.len() <==> (rest.len() > 0 && rest[0] == "--"@),
{
    if rest.len() > 0 && rest[0] == "--"@ {
        assert(rest.drop_first() =~= rest.subrange(1, rest.len() as int));
    } else {
        assert(rest =~= rest.subrange(0, rest.len() as int));
    }
}

/// Why the command line cannot be run.
#[derive(Debug, Clone, PartialEq, Eq)]
pub enum CliError {
    MissingAlias(Launcher),
    InvalidAlias { violation: AliasViolation, launcher: Launcher },
    ArgContainsNul,
    UnknownTuiOption { arg: String },
    CompleteUsage,
    InvalidCword { value: String },
}

pub open spec fn invalid_alias_message(v: AliasViolation, l: Launcher) -> Seq<char> {
    if v == AliasViolation::IsSeparator && l == Launcher::ChopperExe {
        "alias name cannot be `--`; expected `chopper-exe <alias> -- [args...]`"@
    } else {
        alias_violation_message(v)
    }
}

impl CliError {
    pub open spec fn spec_message(&self) -> Seq<char> {
        match self {
            CliError::MissingAlias(Launcher::Chopper) =>
                "missing alias name; use `chopper <alias> [args...]` or `chopper --help`"@,
            CliError::MissingAlias(Launcher::ChopperExe) =>
                "missing alias name; use `chopper-exe <alias> [args...]`"@,
            CliError::InvalidAlias { violation, launcher } => invalid_alias_message(
                *violation,
                *launcher,
            ),
            CliError::ArgContainsNul => "runtime arguments cannot contain NUL bytes"@,
            CliError::UnknownTuiOption { arg } => "unknown --tui option `"@ + arg@
                + "`; --tui currently accepts no options"@,
            CliError::CompleteUsage => "usage: chopper --complete <alias> <cword> [--] <words...>"@,
            CliError::InvalidCword { value } => "invalid cword: "@ + value@,
        }
    }

    /// The text shown to the user.
    pub fn message(&self) -> (r: String)
        ensures
            r@ == self.spec_message(),
    {
        match self {
            CliError::MissingAlias(Launcher::Chopper) => to_owned(
                "missing alias name; use `chopper <alias> [args...]` or `chopper --help`",
            ),
            CliError::MissingAlias(Launcher::ChopperExe) => to_owned(
                "missing alias name; use `chopper-exe <alias> [args...]`",
            ),
            CliError::InvalidAlias { violation, launcher } => {
                if matches!(violation, AliasViolation::IsSeparator) && matches!(
                    launcher,
                    Launcher::ChopperExe
                ) {
                    to_owned(
                        "alias name cannot be `--`; expected `chopper-exe <alias> -- [args...]`",
                    )
                } else {
                    crate::alias_admin_validation::alias_violation_text(*violation)
                }
            },
            CliError::ArgContainsNul => to_owned("runtime arguments cannot contain NUL bytes"),
            CliError::UnknownTuiOption { arg } => concat3(
                "unknown --tui option `",
                arg.as_str(),
                "`; --tui currently accepts no options",
            ),
            CliError::CompleteUsage => to_owned(
                "usage: chopper --complete <alias> <cword> [--] <words...>",
            ),
            CliError::InvalidCword { value } => crate::text::concat2(
                "invalid cword: ",
                value.as_str(),
            ),
        }
    }
}

/// Accepts an alias name or reports, in the launcher's words, the rule it
/// breaks.
pub fn validate_alias_name(alias: &str, launcher: Launcher) -> (r: Result<(), CliError>)
    ensures
        match alias_violation(alias@) {
            None => r is Ok,
            Some(v) => r == Err::<(), CliError>(
                CliError::InvalidAlias { violation: v, launcher: launcher },
            ),
        },
{
    match validate_alias_identifier(alias) {
        Ok(()) => Ok(()),
        Err(v) => Err(CliError::InvalidAlias { violation: v, launcher }),
    }
}

pub open spec fn args_free_of_nul(args: Seq<Seq<char>>) -> bool {
    forall|i: int| 0 <= i < args.len() ==> !(#[trigger] args[i]).contains('\0')
}

/// Runtime arguments may hold anything but NUL.
pub fn validate_passthrough_args(args: &[String]) -> (r: Result<(), CliError>)
    ensures
        args_free_of_nul(views(args@)) ==> r is Ok,
        !args_free_of_nul(views(args@)) ==> r == Err::<(), CliError>(CliError::ArgContainsNul),
{
    let mut i: usize = 0;
    while i < args.len()
        invariant
            0 <= i <= args.len(),
            forall|j: int| 0 <= j < i ==> !(#[trigger] views(args@)[j]).contains('\0'),
        decreases args.len() - i,
    {
        if contains_char(args[i].as_str(), '\0') {
            assert(views(args@)[i as int].contains('\0'));
            return Err(CliError::ArgContainsNul);
        }
        i = i + 1;
    }
    Ok(())
}

/// The alias to run and the arguments it gets.
#[derive(Debug, PartialEq, Eq)]
pub struct InvocationInput {
    pub alias: String,
    pub passthrough_args: Vec<String>,
}

/// What a command line runs: started directly, the first argument names
/// the alias; started through a link, the link's name does. One leading
/// `--` before the arguments is dropped.
pub open spec fn invocation_result(args: Seq<Seq<char>>, l: Launcher) -> Result<
    (Seq<char>, Seq<Seq<char>>),
    CliError,
> {
    let name = exe_name(args, l);
    let (alias, rest) = if is_direct_name(name, l) {
        (if args.len() >= 2 { args[1] } else { Seq::empty() }, args.subrange(2, args.len() as int))
    } else {
        (name, if args.len() > 0 { args.drop_first() } else { Seq::empty() })
    };
    if is_direct_name(name, l) && args.len() < 2 {
        Err(CliError::MissingAlias(l))
    } else {
        match alias_violation(alias) {
            Some(v) => Err(CliError::InvalidAlias { violation: v, launcher: l }),
            None => if args_free_of_nul(passthrough(rest)) {
                Ok((alias, passthrough(rest)))
            } else {
                Err(CliError::ArgContainsNul)
            },
        }
    }
}

/// A command line that is accepted runs the alias named after the launcher
/// (or the name it was invoked under) with every later word, in order;
/// only a `--` directly after the alias is dropped.
pub proof fn lemma_invocation_passes_words_after_alias(args: Seq<Seq<char>>, l: Launcher)
    ensures
        invocation_result(args, l) matches Ok((alias, pass)) ==> ({
            let direct = is_direct_name(exe_name(args, l), l);
            let start: int = if direct {
                2
            } else {
                1
            };
            &&& alias == (if direct {
                args[1]
            } else {
                exe_name(args, l)
            })
            &&& args.len() <= start ==> pass.len() == 0
            &&& args.len() > start ==> pass == (if args[start] == "--"@ {
                args.subrange(start + 1, args.len() as int)
            } else {
                args.subrange(start, args.len() as int)
            })
        }),
{
    let direct = is_direct_name(exe_name(args, l), l);
    if direct {
        let rest = args.subrange(2, args.len() as int);
        if args.len() > 2 {
            assert(rest[0] == args[2]);
            assert(rest.drop_first() =~= args.subrange(3, args.len() as int));
        }
    } else if args.len() > 0 {
        let rest = args.drop_first();
        assert(rest =~= args.subrange(1, args.len() as int));
        if args.len() > 1 {
            assert(rest[0] == args[1]);
            assert(rest.drop_first() =~= args.subrange(2, args.len() as int));
        }
    }
}

pub fn parse_invocation_as(args: &[String], launcher: Launcher) -> (r: Result<InvocationInput, CliError>)
    ensures
        match invocation_result(views(args@), launcher) {
            Ok((alias, pass)) => r is Ok && r->Ok_0.alias@ == alias && views(
                r->Ok_0.passthrough_args@,
            ) == pass,
            Err(e) => r == Err::<InvocationInput, CliError>(e),
        },
{
    let exe = invocation_executable_name(args, launcher);
    if is_direct_launcher_name(exe.as_str(), launcher) {
        if args.len() < 2 {
            return Err(CliError::MissingAlias(launcher));
        }
        let alias = args[1].clone();
        validate_alias_name(alias.as_str(), launcher)?;
        let rest = &args[2..args.len()];
        assert(views(rest@) =~= views(args@).subrange(2, args@.len() as int));
        let passthrough_args = normalize_passthrough(rest);
        validate_passthrough_args(passthrough_args.as_slice())?;
        Ok(InvocationInput { alias, passthrough_args })
    } else {
        validate_alias_name(exe.as_str(), launcher)?;
        let start: usize = if args.len() > 0 {
            1
        } else {
            0
        };
        let rest = &args[start..args.len()];
        assert(views(rest@) =~= (if args@.len() > 0 {
            views(args@).drop_first()
        } else {
            Seq::empty()
        }));
        let passthrough_args = normalize_passthrough(rest);
        validate_passthrough_args(passthrough_args.as_slice())?;
        Ok(InvocationInput { alias: exe, passthrough_args })
    }
}

/// `chopper`'s command line.
pub fn parse_invocation(args: &[String]) -> (r: Result<InvocationInput, CliError>)
    ensures
        match invocation_result(views(args@), Launcher::Chopper) {
            Ok((alias, pass)) => r is Ok && r->Ok_0.alias@ == alias && views(
                r->Ok_0.passthrough_args@,
            ) == pass,
            Err(e) => r == Err::<InvocationInput, CliError>(e),
        },
{
    parse_invocation_as(args, Launcher::Chopper)
}

// ---------------------------------------------------------------------------
// Built-in actions
// ---------------------------------------------------------------------------

#[derive(Debug, Clone, PartialEq, Eq)]
pub enum BuiltinAction {
    Help,
    Version,
    PrintConfigDir,
    PrintCacheDir,
    Bashcomp,
    ListAliases,
    PrintExec(String),
    PrintBashcompMode(String),
    Complete(Vec<String>),
    Alias(Vec<String>),
    Tui(Vec<String>),
}

/// A [`BuiltinAction`] with its strings taken as character sequences.
pub enum BuiltinModel {
    Help,
    Version,
    PrintConfigDir,
    PrintCacheDir,
    Bashcomp,
    ListAliases,
    PrintExec(Seq<char>),
    PrintBashcompMode(Seq<char>),
    Complete(Seq<Seq<char>>),
    Alias(Seq<Seq<char>>),
    Tui(Seq<Seq<char>>),
}

impl View for BuiltinAction {
    type V = BuiltinModel;

    open spec fn view(&self) -> BuiltinModel {
        match self {
            BuiltinAction::Help => BuiltinModel::Help,
            BuiltinAction::Version => BuiltinModel::Version,
            BuiltinAction::PrintConfigDir => BuiltinModel::PrintConfigDir,
            BuiltinAction::PrintCacheDir => BuiltinModel::PrintCacheDir,
            BuiltinAction::Bashcomp => BuiltinModel::Bashcomp,
            BuiltinAction::ListAliases => BuiltinModel::ListAliases,
            BuiltinAction::PrintExec(a) => BuiltinModel::PrintExec(a@),
            BuiltinAction::PrintBashcompMode(a) => BuiltinModel::PrintBashcompMode(a@),
            BuiltinAction::Complete(v) => BuiltinModel::Complete(views(v@)),
            BuiltinAction::Alias(v) => BuiltinModel::Alias(views(v@)),
            BuiltinAction::Tui(v) => BuiltinModel::Tui(views(v@)),
        }
    }
}

/// The built-in a direct `chopper` command line asks for, if any.
pub open spec fn builtin_action(args: Seq<Seq<char>>) -> Option<BuiltinModel> {
    if !is_direct_name(exe_name(args, Launcher::Chopper), Launcher::Chopper) {
        None
    } else if args.len() == 1 {
        Some(BuiltinModel::Help)
    } else if args.len() < 2 {
        None
    } else {
        let flag = args[1];
        let rest = args.subrange(2, args.len() as int);
        if args.len() == 2 && (flag == "-h"@ || flag == "--help"@) {
            Some(BuiltinModel::Help)
        } else if args.len() == 2 && (flag == "-V"@ || flag == "--version"@) {
            Some(BuiltinModel::Version)
        } else if args.len() == 2 && flag == "--print-config-dir"@ {
            Some(BuiltinModel::PrintConfigDir)
        } else if args.len() == 2 && flag == "--print-cache-dir"@ {
            Some(BuiltinModel::PrintCacheDir)
        } else if args.len() == 2 && flag == "--bashcomp"@ {
            Some(BuiltinModel::Bashcomp)
        } else if args.len() == 2 && flag == "--list-aliases"@ {
            Some(BuiltinModel::ListAliases)
        } else if args.len() == 3 && flag == "--print-exec"@ {
            Some(BuiltinModel::PrintExec(args[2]))
        } else if args.len() == 3 && flag == "--print-bashcomp-mode"@ {
            Some(BuiltinModel::PrintBashcompMode(args[2]))
        } else if flag == "--complete"@ && args.len() >= 3 {
            Some(BuiltinModel::Complete(rest))
        } else if flag == "--alias"@ {
            Some(BuiltinModel::Alias(rest))
        } else if flag == "--tui"@ {
            Some(BuiltinModel::Tui(rest))
        } else {
            None
        }
    }
}

/// The built-in that `chopper <flag> ...` asks for; links never run
/// built-ins.
pub fn detect_builtin_action(args: &[String]) -> (r: Option<BuiltinAction>)
    ensures
        match builtin_action(views(args@)) {
            None => r is None,
            Some(b) => r is Some && r->Some_0@ == b,
        },
{
    let exe = invocation_executable_name(args, Launcher::Chopper);
    if !is_direct_launcher_name(exe.as_str(), Launcher::Chopper) {
        return None;
    }
    if args.len() == 1 {
        return Some(BuiltinAction::Help);
    }
    if args.len() < 2 {
        return None;
    }
    let flag = args[1].as_str();
    let rest_slice = &args[2..args.len()];
    assert(views(rest_slice@) =~= views(args@).subrange(2, args@.len() as int));
    if args.len() == 2 {
        if str_eq(flag, "-h") || str_eq(flag, "--help") {
            return Some(BuiltinAction::Help);
        } else if str_eq(flag, "-V") || str_eq(flag, "--version") {
            return Some(BuiltinAction::Version);
        } else if str_eq(flag, "--print-config-dir") {
            return Some(BuiltinAction::PrintConfigDir);
        } else if str_eq(flag, "--print-cache-dir") {
            return Some(BuiltinAction::PrintCacheDir);
        } else if str_eq(flag, "--bashcomp") {
            return Some(BuiltinAction::Bashcomp);
        } else if str_eq(flag, "--list-aliases") {
            return Some(BuiltinAction::ListAliases);
        }
    }
    if args.len() == 3 {
        if str_eq(flag, "--print-exec") {
            return Some(BuiltinAction::PrintExec(args[2].clone()));
        } else if str_eq(flag, "--print-bashcomp-mode") {
            return Some(BuiltinAction::PrintBashcompMode(args[2].clone()));
        }
    }
    if str_eq(flag, "--complete") && args.len() >= 3 {
        return Some(BuiltinAction::Complete(crate::alias_admin::strings_of(rest_slice)));
    }
    if str_eq(flag, "--alias") {
        return Some(BuiltinAction::Alias(crate::alias_admin::strings_of(rest_slice)));
    }
    if str_eq(flag, "--tui") {
        return Some(BuiltinAction::Tui(crate::alias_admin::strings_of(rest_slice)));
    }
    None
}

/// `--tui` takes no options.
pub fn parse_tui_options(raw_args: &[String]) -> (r: Result<TuiOptions, CliError>)
    ensures
        raw_args@.len() == 0 ==> r is Ok,
        raw_args@.len() > 0 ==> (r matches Err(CliError::UnknownTuiOption { arg }) && arg@
            == raw_args@[0]@),
{
    if raw_args.len() > 0 {
        return Err(CliError::UnknownTuiOption { arg: raw_args[0].clone() });
    }
    Ok(TuiOptions)
}

/// What `--print-bashcomp-mode` prints for an alias's completion settings.
pub open spec fn bashcomp_mode_of(bc: Option<BashcompConfig>) -> Seq<char> {
    match bc {
        Some(b) => if b.disabled {
            "disabled"@
        } else if b.script is Some {
            "custom"@
        } else if b.rhai_script is Some {
            "rhai"@
        } else if b.passthrough {
            "passthrough"@
        } else {
            "normal"@
        },
        None => "normal"@,
    }
}

pub fn bashcomp_mode(bashcomp: &Option<BashcompConfig>) -> (r: &'static str)
    ensures
        r@ == bashcomp_mode_of(*bashcomp),
{
    match bashcomp {
        Some(b) => if b.disabled {
            "disabled"
        } else if b.script.is_some() {
            "custom"
        } else if b.rhai_script.is_some() {
            "rhai"
        } else if b.passthrough {
            "passthrough"
        } else {
            "normal"
        },
        None => "normal",
    }
}

/// What `--complete` asks for.
#[derive(Debug, Clone, PartialEq, Eq)]
pub struct CompleteRequest {
    pub alias: String,
    pub cword: usize,
    pub words: Vec<String>,
}

/// `--complete <alias> <cword> [--] <words...>`: the alias, the index of
/// the word being completed, and the words (after an optional `--`).
pub open spec fn complete_result(raw: Seq<Seq<char>>) -> Option<(Seq<char>, nat, Seq<Seq<char>>)> {
    if raw.len() < 2 {
        None
    } else {
        match parse_unsigned(raw[1], usize::MAX as nat) {
            None => None,
            Some(n) => {
                let start = if raw.len() > 2 && raw[2] == "--"@ {
                    3
                } else {
                    2
                };
                Some((raw[0], n, raw.subrange(start, raw.len() as int)))
            },
        }
    }
}

pub fn parse_complete_args(raw_args: &[String]) -> (r: Result<CompleteRequest, CliError>)
    ensures
        raw_args@.len() < 2 ==> r == Err::<CompleteRequest, CliError>(CliError::CompleteUsage),
        raw_args@.len() >= 2 && parse_unsigned(raw_args@[1]@, usize::MAX as nat) is None ==> (r
            matches Err(CliError::InvalidCword { value }) && value@ == raw_args@[1]@),
        match complete_result(views(raw_args@)) {
            Some((alias, n, words)) => r is Ok && r->Ok_0.alias@ == alias && r->Ok_0.cword == n
                && views(r->Ok_0.words@) == words,
            None => r is Err,
        },
{
    if raw_args.len() < 2 {
        return Err(CliError::CompleteUsage);
    }
    let cword = match parse_u64(raw_args[1].as_str()) {
        Some(n) => {
            if n as u128 > usize::MAX as u128 {
                return Err(CliError::InvalidCword { value: raw_args[1].clone() });
            }
            n as usize
        },
        None => {
            return Err(CliError::InvalidCword { value: raw_args[1].clone() });
        },
    };
    let start: usize = if raw_args.len() > 2 && str_eq(raw_args[2].as_str(), "--") {
        3
    } else {
        2
    };
    let rest = &raw_args[start..raw_args.len()];
    assert(views(rest@) =~= views(raw_args@).subrange(start as int, raw_args@.len() as int));
    Ok(
        CompleteRequest {
            alias: raw_args[0].clone(),
            cword,
            words: crate::alias_admin::strings_of(rest),
        },
    )
}

/// The alias a configuration file name stands for: `<alias>.toml` with a
/// non-empty alias.
pub open spec fn alias_of_file_name(name: Seq<char>) -> Option<Seq<char>> {
    if name.len() > 5 && name.subrange(name.len() - 5, name.len() as int) == ".toml"@ {
        Some(name.subrange(0, name.len() - 5))
    } else {
        None
    }
}

pub fn alias_name_from_file_name(name: &str) -> (r: Option<String>)
    ensures
        crate::journal_validation::opt_string_view(r) == alias_of_file_name(name@),
{
    let chars = chars_of(name);
    let suffix = chars_of(".toml");
    proof {
        reveal_strlit(".toml");
    }
    if chars.len() > 5 && crate::text::vec_ends_with(&chars, &suffix) {
        Some(crate::text::string_from_range(&chars, 0, chars.len() - 5))
    } else {
        None
    }
}

} // verus!
