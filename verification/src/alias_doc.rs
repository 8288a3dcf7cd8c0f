//! The editable alias document (`exe.toml`) and the rules it obeys before it
//! is written or after it is read.
use crate::env_map::StringMap;
use crate::journal_validation::{
    invocation_identifier_result, namespace_result, normalize_namespace,
    normalize_optional_identifier_for_invocation, opt_string_view, JournalIdentifierViolation,
    JournalNamespaceViolation,
};
use crate::manifest::clone_opt_string;
use crate::path_mutation::PathMutationConfig;
use crate::path_validation::{
    ends_with_dot_segment, ends_with_dot_segment_with, has_meaningful_segment,
    has_meaningful_segment_with,
};
use crate::text::{
    chars_of, concat3, contains_char, str_eq, str_is_blank, to_owned, trim, trim_str,
    views,
};
use vstd::prelude::*;

verus! {

#[derive(Debug, PartialEq, Eq)]
pub struct AliasJournalDoc {
    pub namespace: String,
    pub stderr: bool,
    pub identifier: Option<String>,
    pub user_scope: bool,
    pub ensure: bool,
    pub max_use: Option<String>,
    pub rate_limit_interval_usec: Option<u64>,
    pub rate_limit_burst: Option<u32>,
}

/// An [`AliasJournalDoc`] with its strings taken as character sequences.
#[verifier::ext_equal]
pub struct JournalDocModel {
    pub namespace: Seq<char>,
    pub stderr: bool,
    pub identifier: Option<Seq<char>>,
    pub user_scope: bool,
    pub ensure: bool,
    pub max_use: Option<Seq<char>>,
    pub rate_limit_interval_usec: Option<u64>,
    pub rate_limit_burst: Option<u32>,
}

impl View for AliasJournalDoc {
    type V = JournalDocModel;

    open spec fn view(&self) -> JournalDocModel {
        JournalDocModel {
            namespace: self.namespace@,
            stderr: self.stderr,
            identifier: opt_string_view(self.identifier),
            user_scope: self.user_scope,
            ensure: self.ensure,
            max_use: opt_string_view(self.max_use),
            rate_limit_interval_usec: self.rate_limit_interval_usec,
            rate_limit_burst: self.rate_limit_burst,
        }
    }
}

pub open spec fn opt_journal_view(o: Option<AliasJournalDoc>) -> Option<JournalDocModel> {
    match o {
        Some(j) => Some(j@),
        None => None,
    }
}

impl Clone for AliasJournalDoc {
    fn clone(&self) -> (r: Self)
        ensures
            r == *self,
    {
        AliasJournalDoc {
            namespace: self.namespace.clone(),
            stderr: self.stderr,
            identifier: clone_opt_string(&self.identifier),
            user_scope: self.user_scope,
            ensure: self.ensure,
            max_use: clone_opt_string(&self.max_use),
            rate_limit_interval_usec: self.rate_limit_interval_usec,
            rate_limit_burst: self.rate_limit_burst,
        }
    }
}

#[derive(Debug, PartialEq, Eq)]
pub struct AliasReconcileDoc {
    pub script: String,
    pub function: Option<String>,
}

#[derive(Debug, PartialEq, Eq)]
pub struct AliasBashcompDoc {
    pub disabled: bool,
    pub passthrough: bool,
    pub script: Option<String>,
    pub rhai_script: Option<String>,
    pub rhai_function: Option<String>,
}

#[derive(Debug, PartialEq, Eq)]
pub struct AliasDoc {
    pub executable: String,
    pub args: Vec<String>,
    pub env: StringMap,
    pub env_remove: Vec<String>,
    pub path: Option<PathMutationConfig>,
    pub journal: Option<AliasJournalDoc>,
    pub reconcile: Option<AliasReconcileDoc>,
    pub bashcomp: Option<AliasBashcompDoc>,
}

/// The rule an alias document breaks.
#[derive(Debug, Clone, Copy, PartialEq, Eq)]
pub enum DocIssue {
    ExecBlank,
    ExecContainsNul,
    ArgContainsNul,
    EnvKeyContainsEquals,
    EnvKeyContainsNul,
    EnvValueContainsNul,
    EnvRemoveKeyContainsEquals,
    EnvRemoveKeyContainsNul,
    JournalNamespaceBlank,
    JournalNamespaceContainsNul,
    JournalIdentifierBlank,
    JournalIdentifierContainsNul,
    ScriptBlank,
    ScriptContainsNul,
    ScriptDotToken,
    ScriptTrailingSeparator,
    ScriptDotComponent,
    ScriptNeedsFile,
    ReconcileFunctionContainsNul,
    BashcompFunctionContainsNul,
    BashcompFunctionNeedsScript,
}

/// A broken rule and what it concerns: the env key, or the script field's
/// name (empty for the other rules).
#[derive(Debug, Clone, PartialEq, Eq)]
pub struct AliasDocError {
    pub issue: DocIssue,
    pub subject: String,
}

impl AliasDocError {
    pub open spec fn spec_message(&self) -> Seq<char> {
        let s = self.subject@;
        match self.issue {
            DocIssue::ExecBlank => "`exec` cannot be blank"@,
            DocIssue::ExecContainsNul => "`exec` cannot contain NUL bytes"@,
            DocIssue::ArgContainsNul => "`args` entries cannot contain NUL bytes"@,
            DocIssue::EnvKeyContainsEquals => "`env` key `"@ + s + "` cannot contain `=`"@,
            DocIssue::EnvKeyContainsNul => "`env` key `"@ + s + "` cannot contain NUL bytes"@,
            DocIssue::EnvValueContainsNul => "`env` value for key `"@ + s + "` cannot contain NUL bytes"@,
            DocIssue::EnvRemoveKeyContainsEquals => "`env_remove` key `"@ + s + "` cannot contain `=`"@,
            DocIssue::EnvRemoveKeyContainsNul => "`env_remove` key `"@ + s + "` cannot contain NUL bytes"@,
            DocIssue::JournalNamespaceBlank => "`journal.namespace` cannot be blank"@,
            DocIssue::JournalNamespaceContainsNul => "`journal.namespace` cannot contain NUL bytes"@,
            DocIssue::JournalIdentifierBlank => "`journal.identifier` cannot be blank when provided"@,
            DocIssue::JournalIdentifierContainsNul => "`journal.identifier` cannot contain NUL bytes"@,
            DocIssue::ScriptBlank => s + " cannot be blank"@,
            DocIssue::ScriptContainsNul => s + " cannot contain NUL bytes"@,
            DocIssue::ScriptDotToken => s + " cannot be `.` or `..`"@,
            DocIssue::ScriptTrailingSeparator => s + " cannot end with a path separator"@,
            DocIssue::ScriptDotComponent => s + " cannot end with `.` or `..` path components"@,
            DocIssue::ScriptNeedsFile => s + " must include a file path when using relative path notation"@,
            DocIssue::ReconcileFunctionContainsNul => "`reconcile.function` cannot contain NUL bytes"@,
            DocIssue::BashcompFunctionContainsNul => "`bashcomp.rhai_function` cannot contain NUL bytes"@,
            DocIssue::BashcompFunctionNeedsScript => "`bashcomp.rhai_function` requires `bashcomp.rhai_script`"@,
        }
    }

    pub fn message(&self) -> (r: String)
        ensures
            r@ == self.spec_message(),
    {
        let s = self.subject.as_str();
        match self.issue {
            DocIssue::ExecBlank => to_owned("`exec` cannot be blank"),
            DocIssue::ExecContainsNul => to_owned("`exec` cannot contain NUL bytes"),
            DocIssue::ArgContainsNul => to_owned("`args` entries cannot contain NUL bytes"),
            DocIssue::EnvKeyContainsEquals => concat3("`env` key `", s, "` cannot contain `=`"),
            DocIssue::EnvKeyContainsNul => concat3("`env` key `", s, "` cannot contain NUL bytes"),
            DocIssue::EnvValueContainsNul => concat3(
                "`env` value for key `",
                s,
                "` cannot contain NUL bytes",
            ),
            DocIssue::EnvRemoveKeyContainsEquals => concat3(
                "`env_remove` key `",
                s,
                "` cannot contain `=`",
            ),
            DocIssue::EnvRemoveKeyContainsNul => concat3(
                "`env_remove` key `",
                s,
                "` cannot contain NUL bytes",
            ),
            DocIssue::JournalNamespaceBlank => to_owned("`journal.namespace` cannot be blank"),
            DocIssue::JournalNamespaceContainsNul => to_owned(
                "`journal.namespace` cannot contain NUL bytes",
            ),
            DocIssue::JournalIdentifierBlank => to_owned(
                "`journal.identifier` cannot be blank when provided",
            ),
            DocIssue::JournalIdentifierContainsNul => to_owned(
                "`journal.identifier` cannot contain NUL bytes",
            ),
            DocIssue::ScriptBlank => crate::text::concat2(s, " cannot be blank"),
            DocIssue::ScriptContainsNul => crate::text::concat2(s, " cannot contain NUL bytes"),
            DocIssue::ScriptDotToken => crate::text::concat2(s, " cannot be `.` or `..`"),
            DocIssue::ScriptTrailingSeparator => crate::text::concat2(
                s,
                " cannot end with a path separator",
            ),
            DocIssue::ScriptDotComponent => crate::text::concat2(
                s,
                " cannot end with `.` or `..` path components",
            ),
            DocIssue::ScriptNeedsFile => crate::text::concat2(
                s,
                " must include a file path when using relative path notation",
            ),
            DocIssue::ReconcileFunctionContainsNul => to_owned(
                "`reconcile.function` cannot contain NUL bytes",
            ),
            DocIssue::BashcompFunctionContainsNul => to_owned(
                "`bashcomp.rhai_function` cannot contain NUL bytes",
            ),
            DocIssue::BashcompFunctionNeedsScript => to_owned(
                "`bashcomp.rhai_function` requires `bashcomp.rhai_script`",
            ),
        }
    }
}

// ---------------------------------------------------------------------------
// Specification of the rules
// ---------------------------------------------------------------------------

pub open spec fn no_subject() -> Seq<char> {
    Seq::empty()
}

/// The rule a trimmed, non-blank script path breaks, if any.
pub open spec fn script_shape_issue(t: Seq<char>) -> Option<DocIssue> {
    if t.contains('\0') {
        Some(DocIssue::ScriptContainsNul)
    } else if t == "."@ || t == ".."@ {
        Some(DocIssue::ScriptDotToken)
    } else if t.len() > 0 && (t.last() == '/' || t.last() == '\\') {
        Some(DocIssue::ScriptTrailingSeparator)
    } else if ends_with_dot_segment(t, '/', '\\') {
        Some(DocIssue::ScriptDotComponent)
    } else if !(t.len() > 0 && t[0] == '/') && !has_meaningful_segment(t, '/', '\\') {
        Some(DocIssue::ScriptNeedsFile)
    } else {
        None
    }
}

pub open spec fn required_script_issue(value: Seq<char>) -> Option<DocIssue> {
    if trim(value).len() == 0 {
        Some(DocIssue::ScriptBlank)
    } else {
        script_shape_issue(trim(value))
    }
}

pub open spec fn optional_script_issue(value: Option<Seq<char>>) -> Option<DocIssue> {
    match value {
        None => None,
        Some(v) => if trim(v).len() == 0 {
            None
        } else {
            script_shape_issue(trim(v))
        },
    }
}

/// The first argument holding NUL, in order.
pub open spec fn args_issue(args: Seq<Seq<char>>) -> Option<(DocIssue, Seq<char>)>
    decreases args.len(),
{
    if args.len() == 0 {
        None
    } else if args[0].contains('\0') {
        Some((DocIssue::ArgContainsNul, no_subject()))
    } else {
        args_issue(args.drop_first())
    }
}

/// The first env entry (in insertion order) with a bad key or value.
pub open spec fn env_issue(pairs: Seq<(Seq<char>, Seq<char>)>) -> Option<(DocIssue, Seq<char>)>
    decreases pairs.len(),
{
    if pairs.len() == 0 {
        None
    } else if pairs[0].0.contains('=') {
        Some((DocIssue::EnvKeyContainsEquals, pairs[0].0))
    } else if pairs[0].0.contains('\0') {
        Some((DocIssue::EnvKeyContainsNul, pairs[0].0))
    } else if pairs[0].1.contains('\0') {
        Some((DocIssue::EnvValueContainsNul, pairs[0].0))
    } else {
        env_issue(pairs.drop_first())
    }
}

/// The first `env_remove` key that is not a valid variable name.
pub open spec fn env_remove_issue(keys: Seq<Seq<char>>) -> Option<(DocIssue, Seq<char>)>
    decreases keys.len(),
{
    if keys.len() == 0 {
        None
    } else if keys[0].contains('=') {
        Some((DocIssue::EnvRemoveKeyContainsEquals, keys[0]))
    } else if keys[0].contains('\0') {
        Some((DocIssue::EnvRemoveKeyContainsNul, keys[0]))
    } else {
        env_remove_issue(keys.drop_first())
    }
}

pub open spec fn journal_issue(journal: Option<AliasJournalDoc>) -> Option<DocIssue> {
    match journal {
        None => None,
        Some(j) => match namespace_result(j.namespace@) {
            Err(JournalNamespaceViolation::Empty) => Some(DocIssue::JournalNamespaceBlank),
            Err(JournalNamespaceViolation::ContainsNul) => Some(
                DocIssue::JournalNamespaceContainsNul,
            ),
            Ok(_) => match invocation_identifier_result(opt_string_view(j.identifier)) {
                Err(JournalIdentifierViolation::Blank) => Some(DocIssue::JournalIdentifierBlank),
                Err(JournalIdentifierViolation::ContainsNul) => Some(
                    DocIssue::JournalIdentifierContainsNul,
                ),
                Ok(_) => None,
            },
        },
    }
}

pub open spec fn reconcile_issue(reconcile: Option<AliasReconcileDoc>) -> Option<(DocIssue, Seq<char>)> {
    match reconcile {
        None => None,
        Some(r) => match required_script_issue(r.script@) {
            Some(i) => Some((i, "`reconcile.script`"@)),
            None => match r.function {
                Some(f) => if f@.contains('\0') {
                    Some((DocIssue::ReconcileFunctionContainsNul, no_subject()))
                } else {
                    None
                },
                None => None,
            },
        },
    }
}

pub open spec fn bashcomp_issue(bashcomp: Option<AliasBashcompDoc>) -> Option<(DocIssue, Seq<char>)> {
    match bashcomp {
        None => None,
        Some(b) => match optional_script_issue(opt_string_view(b.script)) {
            Some(i) => Some((i, "`bashcomp.script`"@)),
            None => match optional_script_issue(opt_string_view(b.rhai_script)) {
                Some(i) => Some((i, "`bashcomp.rhai_script`"@)),
                None => match b.rhai_function {
                    None => None,
                    Some(f) => if f@.contains('\0') {
                        Some((DocIssue::BashcompFunctionContainsNul, no_subject()))
                    } else if trim(f@).len() > 0 && !(match b.rhai_script {
                        Some(s) => trim(s@).len() > 0,
                        None => false,
                    }) {
                        Some((DocIssue::BashcompFunctionNeedsScript, no_subject()))
                    } else {
                        None
                    },
                },
            },
        },
    }
}

pub open spec fn with_no_subject(i: Option<DocIssue>) -> Option<(DocIssue, Seq<char>)> {
    match i {
        Some(i) => Some((i, no_subject())),
        None => None,
    }
}

/// The first rule `doc` breaks, checked in field order.
pub open spec fn doc_issue(doc: AliasDoc) -> Option<(DocIssue, Seq<char>)> {
    if trim(doc.executable@).len() == 0 {
        Some((DocIssue::ExecBlank, no_subject()))
    } else if doc.executable@.contains('\0') {
        Some((DocIssue::ExecContainsNul, no_subject()))
    } else if args_issue(views(doc.args@)) is Some {
        args_issue(views(doc.args@))
    } else if env_issue(doc.env.pairs()) is Some {
        env_issue(doc.env.pairs())
    } else if env_remove_issue(views(doc.env_remove@)) is Some {
        env_remove_issue(views(doc.env_remove@))
    } else if journal_issue(doc.journal) is Some {
        with_no_subject(journal_issue(doc.journal))
    } else if reconcile_issue(doc.reconcile) is Some {
        reconcile_issue(doc.reconcile)
    } else {
        bashcomp_issue(doc.bashcomp)
    }
}

pub open spec fn error_is(r: Result<(), AliasDocError>, issue: Option<(DocIssue, Seq<char>)>) -> bool {
    match issue {
        None => r is Ok,
        Some((i, s)) => r matches Err(e) && e.issue == i && e.subject@ == s,
    }
}

// ---------------------------------------------------------------------------
// Checks
// ---------------------------------------------------------------------------

fn doc_error(issue: DocIssue, subject: &str) -> (r: Result<(), AliasDocError>)
    ensures
        r matches Err(e) && e.issue == issue && e.subject@ == subject@,
{
    Err(AliasDocError { issue, subject: to_owned(subject) })
}

fn bare_error(issue: DocIssue) -> (r: Result<(), AliasDocError>)
    ensures
        r matches Err(e) && e.issue == issue && e.subject@ == no_subject(),
{
    Err(AliasDocError { issue, subject: String::new() })
}

/// Shape rules for a script path that is already trimmed and not blank.
pub fn validate_script_shape(trimmed: &str, field: &str) -> (r: Result<(), AliasDocError>)
    ensures
        error_is(
            r,
            match script_shape_issue(trimmed@) {
                Some(i) => Some((i, field@)),
                None => None,
            },
        ),
{
    if contains_char(trimmed, '\0') {
        return doc_error(DocIssue::ScriptContainsNul, field);
    }
    if str_eq(trimmed, ".") || str_eq(trimmed, "..") {
        return doc_error(DocIssue::ScriptDotToken, field);
    }
    let chars = chars_of(trimmed);
    let n = chars.len();
    if n > 0 && (chars[n - 1] == '/' || chars[n - 1] == '\\') {
        return doc_error(DocIssue::ScriptTrailingSeparator, field);
    }
    if ends_with_dot_segment_with(trimmed, '/', '\\') {
        return doc_error(DocIssue::ScriptDotComponent, field);
    }
    let absolute = n > 0 && chars[0] == '/';
    if !absolute && !has_meaningful_segment_with(trimmed, '/', '\\') {
        return doc_error(DocIssue::ScriptNeedsFile, field);
    }
    Ok(())
}

pub fn validate_required_script_field(value: &str, field: &str) -> (r: Result<(), AliasDocError>)
    ensures
        error_is(
            r,
            match required_script_issue(value@) {
                Some(i) => Some((i, field@)),
                None => None,
            },
        ),
{
    let trimmed = trim_str(value);
    if chars_of(trimmed.as_str()).len() == 0 {
        return doc_error(DocIssue::ScriptBlank, field);
    }
    validate_script_shape(trimmed.as_str(), field)
}

pub fn validate_optional_script_field(value: Option<&str>, field: &str) -> (r: Result<
    (),
    AliasDocError,
>)
    ensures
        error_is(
            r,
            match optional_script_issue(crate::journal_validation::opt_view(value)) {
                Some(i) => Some((i, field@)),
                None => None,
            },
        ),
{
    let value = match value {
        None => {
            return Ok(());
        },
        Some(v) => v,
    };
    let trimmed = trim_str(value);
    if chars_of(trimmed.as_str()).len() == 0 {
        return Ok(());
    }
    validate_script_shape(trimmed.as_str(), field)
}

fn validate_args(args: &Vec<String>) -> (r: Result<(), AliasDocError>)
    ensures
        error_is(r, args_issue(views(args@))),
{
    let ghost s = views(args@);
    let mut i: usize = 0;
    assert(s.subrange(0, s.len() as int) =~= s);
    while i < args.len()
        invariant
            0 <= i <= args.len(),
            s == views(args@),
            args_issue(s) == args_issue(s.subrange(i as int, s.len() as int)),
        decreases args.len() - i,
    {
        assert(s.subrange(i as int, s.len() as int).drop_first() =~= s.subrange(
            i + 1,
            s.len() as int,
        ));
        if contains_char(args[i].as_str(), '\0') {
            return bare_error(DocIssue::ArgContainsNul);
        }
        i = i + 1;
    }
    Ok(())
}

fn validate_env(env: &StringMap) -> (r: Result<(), AliasDocError>)
    ensures
        error_is(r, env_issue(env.pairs())),
{
    let ghost s = env.pairs();
    let n = env.len();
    let mut i: usize = 0;
    assert(s.subrange(0, s.len() as int) =~= s);
    while i < n
        invariant
            0 <= i <= n,
            n == s.len(),
            s == env.pairs(),
            env_issue(s) == env_issue(s.subrange(i as int, s.len() as int)),
        decreases n - i,
    {
        assert(s.subrange(i as int, s.len() as int).drop_first() =~= s.subrange(
            i + 1,
            s.len() as int,
        ));
        let (key, value) = env.entry(i);
        if contains_char(key.as_str(), '=') {
            return doc_error(DocIssue::EnvKeyContainsEquals, key.as_str());
        }
        if contains_char(key.as_str(), '\0') {
            return doc_error(DocIssue::EnvKeyContainsNul, key.as_str());
        }
        if contains_char(value.as_str(), '\0') {
            return doc_error(DocIssue::EnvValueContainsNul, key.as_str());
        }
        i = i + 1;
    }
    Ok(())
}

fn validate_env_remove(keys: &Vec<String>) -> (r: Result<(), AliasDocError>)
    ensures
        error_is(r, env_remove_issue(views(keys@))),
{
    let ghost s = views(keys@);
    let mut i: usize = 0;
    assert(s.subrange(0, s.len() as int) =~= s);
    while i < keys.len()
        invariant
            0 <= i <= keys.len(),
            s == views(keys@),
            env_remove_issue(s) == env_remove_issue(s.subrange(i as int, s.len() as int)),
        decreases keys.len() - i,
    {
        assert(s.subrange(i as int, s.len() as int).drop_first() =~= s.subrange(
            i + 1,
            s.len() as int,
        ));
        let key = keys[i].as_str();
        if contains_char(key, '=') {
            return doc_error(DocIssue::EnvRemoveKeyContainsEquals, key);
        }
        if contains_char(key, '\0') {
            return doc_error(DocIssue::EnvRemoveKeyContainsNul, key);
        }
        i = i + 1;
    }
    Ok(())
}

fn validate_journal(journal: &Option<AliasJournalDoc>) -> (r: Result<(), AliasDocError>)
    ensures
        error_is(r, with_no_subject(journal_issue(*journal))),
{
    if let Some(journal) = journal {
        match normalize_namespace(journal.namespace.as_str()) {
            Ok(_) => {},
            Err(JournalNamespaceViolation::Empty) => {
                return bare_error(DocIssue::JournalNamespaceBlank);
            },
            Err(JournalNamespaceViolation::ContainsNul) => {
                return bare_error(DocIssue::JournalNamespaceContainsNul);
            },
        }
        let identifier = match &journal.identifier {
            Some(s) => Some(s.as_str()),
            None => None,
        };
        assert(crate::journal_validation::opt_view(identifier) == opt_string_view(
            journal.identifier,
        ));
        match normalize_optional_identifier_for_invocation(identifier) {
            Ok(_) => {},
            Err(JournalIdentifierViolation::Blank) => {
                return bare_error(DocIssue::JournalIdentifierBlank);
            },
            Err(JournalIdentifierViolation::ContainsNul) => {
                return bare_error(DocIssue::JournalIdentifierContainsNul);
            },
        }
    }
    Ok(())
}

fn validate_reconcile(reconcile: &Option<AliasReconcileDoc>) -> (r: Result<(), AliasDocError>)
    ensures
        error_is(r, reconcile_issue(*reconcile)),
{
    if let Some(reconcile) = reconcile {
        validate_required_script_field(reconcile.script.as_str(), "`reconcile.script`")?;
        if let Some(function) = &reconcile.function {
            if contains_char(function.as_str(), '\0') {
                return bare_error(DocIssue::ReconcileFunctionContainsNul);
            }
        }
    }
    Ok(())
}

fn opt_str(o: &Option<String>) -> (r: Option<&str>)
    ensures
        crate::journal_validation::opt_view(r) == opt_string_view(*o),
{
    match o {
        Some(s) => Some(s.as_str()),
        None => None,
    }
}

fn validate_bashcomp(bashcomp: &Option<AliasBashcompDoc>) -> (r: Result<(), AliasDocError>)
    ensures
        error_is(r, bashcomp_issue(*bashcomp)),
{
    if let Some(bashcomp) = bashcomp {
        validate_optional_script_field(opt_str(&bashcomp.script), "`bashcomp.script`")?;
        validate_optional_script_field(opt_str(&bashcomp.rhai_script), "`bashcomp.rhai_script`")?;
        if let Some(function) = &bashcomp.rhai_function {
            if contains_char(function.as_str(), '\0') {
                return bare_error(DocIssue::BashcompFunctionContainsNul);
            }
            let has_script = match &bashcomp.rhai_script {
                Some(s) => !str_is_blank(s.as_str()),
                None => false,
            };
            if !str_is_blank(function.as_str()) && !has_script {
                return bare_error(DocIssue::BashcompFunctionNeedsScript);
            }
        }
    }
    Ok(())
}

impl AliasDoc {
    /// Checks the document field by field and reports the first broken rule.
    pub fn validate(&self) -> (r: Result<(), AliasDocError>)
        ensures
            error_is(r, doc_issue(*self)),
    {
        if str_is_blank(self.executable.as_str()) {
            return bare_error(DocIssue::ExecBlank);
        }
        if contains_char(self.executable.as_str(), '\0') {
            return bare_error(DocIssue::ExecContainsNul);
        }
        validate_args(&self.args)?;
        validate_env(&self.env)?;
        validate_env_remove(&self.env_remove)?;
        validate_journal(&self.journal)?;
        validate_reconcile(&self.reconcile)?;
        validate_bashcomp(&self.bashcomp)
    }
}

} // verus!
