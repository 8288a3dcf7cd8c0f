//! Checks and names that come before a command is launched: the
//! invocation's strings, the journal namespace and identifier, the
//! user-scoped namespace, the journal broker's command line and how the
//! launcher exits like its child. Spawning processes stays with the caller.
use crate::env_map::StringMap;
use crate::journal_validation::{
    invocation_identifier_result, namespace_result, normalize_namespace,
    normalize_optional_identifier_for_invocation, opt_string_view, JournalIdentifierViolation,
    JournalNamespaceViolation,
};
use crate::manifest::{Invocation, JournalConfig};
use crate::shell_text::{shell_split, shell_split_words};
use crate::text::{
    char_lower, chars_of, concat3, contains_char, decimal, is_ascii_alphanumeric, lower_char,
    parse_u32, parse_unsigned, str_is_blank, string_from_range, to_owned, trim, trim_end_matches2,
    trim_str, u64_to_string, views,
};
use vstd::prelude::*;

verus! {

/// The broker command used when `CHOPPER_JOURNAL_BROKER_CMD` is unset or
/// blank.
pub const DEFAULT_JOURNAL_BROKER_CMD: &'static str = "chopper-journal-broker";

/// Why a command is not launched.
#[derive(Debug, Clone, PartialEq, Eq)]
pub enum ExecError {
    ExecPathContainsNul,
    ArgContainsNul,
    EnvKeyContainsEquals { key: String },
    EnvKeyContainsNul,
    EnvValueContainsNul { key: String },
    NamespaceEmpty,
    NamespaceContainsNul,
    IdentifierBlank,
    IdentifierContainsNul,
    BrokerCommandInvalid,
    BrokerCommandEmpty,
}

impl ExecError {
    pub open spec fn spec_message(&self) -> Seq<char> {
        match self {
            ExecError::ExecPathContainsNul => "execution path cannot contain NUL bytes"@,
            ExecError::ArgContainsNul => "command arguments cannot contain NUL bytes"@,
            ExecError::EnvKeyContainsEquals { key } => "environment key `"@ + key@
                + "` cannot contain `=`"@,
            ExecError::EnvKeyContainsNul => "environment key cannot contain NUL bytes"@,
            ExecError::EnvValueContainsNul { key } => "environment value for `"@ + key@
                + "` cannot contain NUL bytes"@,
            ExecError::NamespaceEmpty => "journal namespace cannot be empty"@,
            ExecError::NamespaceContainsNul => "journal namespace cannot contain NUL bytes"@,
            ExecError::IdentifierBlank => "journal identifier cannot be blank when provided"@,
            ExecError::IdentifierContainsNul => "journal identifier cannot contain NUL bytes"@,
            ExecError::BrokerCommandInvalid =>
                "CHOPPER_JOURNAL_BROKER_CMD must be a valid shell-style command line"@,
            ExecError::BrokerCommandEmpty =>
                "CHOPPER_JOURNAL_BROKER_CMD did not resolve to an executable command"@,
        }
    }

    /// The text shown to the user.
    pub fn message(&self) -> (r: String)
        ensures
            r@ == self.spec_message(),
    {
        match self {
            ExecError::ExecPathContainsNul => to_owned("execution path cannot contain NUL bytes"),
            ExecError::ArgContainsNul => to_owned("command arguments cannot contain NUL bytes"),
            ExecError::EnvKeyContainsEquals { key } => concat3(
                "environment key `",
                key.as_str(),
                "` cannot contain `=`",
            ),
            ExecError::EnvKeyContainsNul => to_owned("environment key cannot contain NUL bytes"),
            ExecError::EnvValueContainsNul { key } => concat3(
                "environment value for `",
                key.as_str(),
                "` cannot contain NUL bytes",
            ),
            ExecError::NamespaceEmpty => to_owned("journal namespace cannot be empty"),
            ExecError::NamespaceContainsNul => to_owned(
                "journal namespace cannot contain NUL bytes",
            ),
            ExecError::IdentifierBlank => to_owned(
                "journal identifier cannot be blank when provided",
            ),
            ExecError::IdentifierContainsNul => to_owned(
                "journal identifier cannot contain NUL bytes",
            ),
            ExecError::BrokerCommandInvalid => to_owned(
                "CHOPPER_JOURNAL_BROKER_CMD must be a valid shell-style command line",
            ),
            ExecError::BrokerCommandEmpty => to_owned(
                "CHOPPER_JOURNAL_BROKER_CMD did not resolve to an executable command",
            ),
        }
    }
}

pub open spec fn error_is<T>(r: Result<T, ExecError>, msg: Option<Seq<char>>) -> bool {
    match msg {
        None => r is Ok,
        Some(m) => r is Err && r->Err_0.spec_message() == m,
    }
}

// ---------------------------------------------------------------------------
// The invocation's strings
// ---------------------------------------------------------------------------

/// The first environment entry, in order, that cannot be passed on.
pub open spec fn env_entries_issue(pairs: Seq<(Seq<char>, Seq<char>)>) -> Option<Seq<char>>
    decreases pairs.len(),
{
    if pairs.len() == 0 {
        None
    } else {
        match env_entries_issue(pairs.drop_last()) {
            Some(m) => Some(m),
            None => {
                let (k, v) = pairs.last();
                if k.contains('=') {
                    Some("environment key `"@ + k + "` cannot contain `=`"@)
                } else if k.contains('\0') {
                    Some("environment key cannot contain NUL bytes"@)
                } else if v.contains('\0') {
                    Some("environment value for `"@ + k + "` cannot contain NUL bytes"@)
                } else {
                    None
                }
            },
        }
    }
}

/// The first key to remove, in order, that cannot be passed on.
pub open spec fn remove_keys_issue(keys: Seq<Seq<char>>) -> Option<Seq<char>>
    decreases keys.len(),
{
    if keys.len() == 0 {
        None
    } else {
        match remove_keys_issue(keys.drop_last()) {
            Some(m) => Some(m),
            None => {
                let k = keys.last();
                if k.contains('=') {
                    Some("environment key `"@ + k + "` cannot contain `=`"@)
                } else if k.contains('\0') {
                    Some("environment key cannot contain NUL bytes"@)
                } else {
                    None
                }
            },
        }
    }
}

/// Why an invocation cannot be turned into a command, if it cannot.
pub open spec fn invocation_issue(inv: Invocation) -> Option<Seq<char>> {
    if inv.executable@.contains('\0') {
        Some("execution path cannot contain NUL bytes"@)
    } else if exists|i: int| 0 <= i < inv.args@.len() && (#[trigger] inv.args@[i])@.contains('\0') {
        Some("command arguments cannot contain NUL bytes"@)
    } else {
        match env_entries_issue(inv.env.pairs()) {
            Some(m) => Some(m),
            None => remove_keys_issue(views(inv.env_remove@)),
        }
    }
}

proof fn lemma_env_issue_sticks(s: Seq<(Seq<char>, Seq<char>)>, k: int)
    requires
        0 <= k <= s.len(),
        env_entries_issue(s.take(k)) is Some,
    ensures
        env_entries_issue(s) == env_entries_issue(s.take(k)),
    decreases s.len() - k,
{
    if k < s.len() {
        assert(s.take(k + 1).drop_last() =~= s.take(k));
        lemma_env_issue_sticks(s, k + 1);
    } else {
        assert(s.take(k) =~= s);
    }
}

proof fn lemma_remove_issue_sticks(s: Seq<Seq<char>>, k: int)
    requires
        0 <= k <= s.len(),
        remove_keys_issue(s.take(k)) is Some,
    ensures
        remove_keys_issue(s) == remove_keys_issue(s.take(k)),
    decreases s.len() - k,
{
    if k < s.len() {
        assert(s.take(k + 1).drop_last() =~= s.take(k));
        lemma_remove_issue_sticks(s, k + 1);
    } else {
        assert(s.take(k) =~= s);
    }
}

fn validate_env_entries(env: &StringMap) -> (r: Result<(), ExecError>)
    ensures
        error_is(r, env_entries_issue(env.pairs())),
{
    let ghost s = env.pairs();
    let n = env.len();
    let mut i: usize = 0;
    assert(s.take(0) =~= Seq::<(Seq<char>, Seq<char>)>::empty());
    while i < n
        invariant
            0 <= i <= n,
            n == s.len(),
            s == env.pairs(),
            env_entries_issue(s.take(i as int)) is None,
        decreases n - i,
    {
        assert(s.take(i + 1).drop_last() =~= s.take(i as int));
        let (key, value) = env.entry(i);
        assert(s.take(i + 1).last() == (key@, value@));
        if contains_char(key.as_str(), '=') {
            proof {
                lemma_env_issue_sticks(s, i + 1);
            }
            return Err(ExecError::EnvKeyContainsEquals { key: key.clone() });
        }
        if contains_char(key.as_str(), '\0') {
            proof {
                lemma_env_issue_sticks(s, i + 1);
            }
            return Err(ExecError::EnvKeyContainsNul);
        }
        if contains_char(value.as_str(), '\0') {
            proof {
                lemma_env_issue_sticks(s, i + 1);
            }
            return Err(ExecError::EnvValueContainsNul { key: key.clone() });
        }
        i = i + 1;
    }
    assert(s.take(n as int) =~= s);
    Ok(())
}

fn validate_remove_keys(keys: &Vec<String>) -> (r: Result<(), ExecError>)
    ensures
        error_is(r, remove_keys_issue(views(keys@))),
{
    let ghost s = views(keys@);
    let mut i: usize = 0;
    assert(s.take(0) =~= Seq::<Seq<char>>::empty());
    while i < keys.len()
        invariant
            0 <= i <= keys.len(),
            s == views(keys@),
            remove_keys_issue(s.take(i as int)) is None,
        decreases keys.len() - i,
    {
        assert(s.take(i + 1).drop_last() =~= s.take(i as int));
        let key = keys[i].as_str();
        assert(s.take(i + 1).last() == key@);
        if contains_char(key, '=') {
            proof {
                lemma_remove_issue_sticks(s, i + 1);
            }
            return Err(ExecError::EnvKeyContainsEquals { key: to_owned(key) });
        }
        if contains_char(key, '\0') {
            proof {
                lemma_remove_issue_sticks(s, i + 1);
            }
            return Err(ExecError::EnvKeyContainsNul);
        }
        i = i + 1;
    }
    assert(s.take(keys.len() as int) =~= s);
    Ok(())
}

/// Accepts an invocation whose program, arguments and environment can be
/// handed to the operating system (none holds NUL, no key holds `=`);
/// otherwise reports the first problem, checked in that order.
pub fn validate_invocation_for_command(invocation: &Invocation) -> (r: Result<(), ExecError>)
    ensures
        error_is(r, invocation_issue(*invocation)),
{
    if contains_char(invocation.executable.as_str(), '\0') {
        return Err(ExecError::ExecPathContainsNul);
    }
    let mut i: usize = 0;
    while i < invocation.args.len()
        invariant
            0 <= i <= invocation.args.len(),
            !invocation.executable@.contains('\0'),
            forall|j: int| 0 <= j < i ==> !(#[trigger] invocation.args@[j])@.contains('\0'),
        decreases invocation.args.len() - i,
    {
        if contains_char(invocation.args[i].as_str(), '\0') {
            assert(invocation.args@[i as int]@.contains('\0'));
            return Err(ExecError::ArgContainsNul);
        }
        i = i + 1;
    }
    validate_env_entries(&invocation.env)?;
    validate_remove_keys(&invocation.env_remove)
}

// ---------------------------------------------------------------------------
// Journal namespace
// ---------------------------------------------------------------------------

/// Who runs the launcher, for user-scoped journal namespaces.
#[derive(Debug, Clone, PartialEq, Eq)]
pub struct UserIdentity {
    pub uid: u32,
    pub username: String,
}

/// `s` without leading `c` characters.
pub open spec fn strip_leading(s: Seq<char>, c: char) -> Seq<char>
    decreases s.len(),
{
    if s.len() > 0 && s[0] == c {
        strip_leading(s.drop_first(), c)
    } else {
        s
    }
}

/// Characters kept by namespace sanitizing: ASCII letters (lowered),
/// digits, `.`, `_` and `-`; every run of other characters becomes one `-`
/// (none right after a `-`). The flag says whether the text ends in `-`
/// written for a run or kept from the input.
pub open spec fn sanitize_raw(s: Seq<char>) -> (Seq<char>, bool)
    decreases s.len(),
{
    if s.len() == 0 {
        (Seq::empty(), false)
    } else {
        let (out, dash) = sanitize_raw(s.drop_last());
        let ch = s.last();
        if is_ascii_alphanumeric(ch) {
            (out.push(lower_char(ch)), false)
        } else if ch == '.' || ch == '_' || ch == '-' {
            (out.push(ch), ch == '-')
        } else if !dash {
            (out.push('-'), true)
        } else {
            (out, dash)
        }
    }
}

/// A namespace component: sanitized, without leading or trailing `-`, and
/// `x` when nothing is left.
pub open spec fn sanitized(s: Seq<char>) -> Seq<char> {
    let t = trim_end_matches2(strip_leading(sanitize_raw(s).0, '-'), '-', '-');
    if t.len() == 0 {
        "x"@
    } else {
        t
    }
}

fn is_alnum(c: char) -> (r: bool)
    ensures
        r == is_ascii_alphanumeric(c),
{
    ('A' <= c && c <= 'Z') || ('a' <= c && c <= 'z') || ('0' <= c && c <= '9')
}

/// Reduces `value` to characters a journal namespace may hold.
pub fn sanitize_namespace_component(value: &str) -> (r: String)
    ensures
        r@ == sanitized(value@),
{
    let chars = chars_of(value);
    let mut out: Vec<char> = Vec::new();
    let mut previous_was_dash = false;
    let mut i: usize = 0;
    assert(chars@.take(0) =~= Seq::<char>::empty());
    while i < chars.len()
        invariant
            0 <= i <= chars.len(),
            chars@ == value@,
            sanitize_raw(chars@.take(i as int)) == (out@, previous_was_dash),
        decreases chars.len() - i,
    {
        assert(chars@.take(i + 1).drop_last() =~= chars@.take(i as int));
        let ch = chars[i];
        assert(chars@.take(i + 1).last() == ch);
        if is_alnum(ch) {
            out.push(char_lower(ch));
            previous_was_dash = false;
        } else if ch == '.' || ch == '_' || ch == '-' {
            out.push(ch);
            previous_was_dash = ch == '-';
        } else if !previous_was_dash {
            out.push('-');
            previous_was_dash = true;
        }
        i = i + 1;
    }
    assert(chars@.take(chars.len() as int) =~= chars@);
    let mut lo: usize = 0;
    assert(out@.subrange(0, out@.len() as int) =~= out@);
    while lo < out.len() && out[lo] == '-'
        invariant
            0 <= lo <= out.len(),
            strip_leading(out@, '-') == strip_leading(out@.subrange(lo as int, out@.len() as int), '-'),
        decreases out.len() - lo,
    {
        assert(out@.subrange(lo as int, out@.len() as int).drop_first() =~= out@.subrange(
            lo + 1,
            out@.len() as int,
        ));
        lo = lo + 1;
    }
    let mut hi: usize = out.len();
    let ghost stripped = out@.subrange(lo as int, out@.len() as int);
    assert(strip_leading(stripped, '-') == stripped);
    assert(stripped.subrange(0, (hi - lo) as int) =~= stripped);
    while hi > lo && out[hi - 1] == '-'
        invariant
            lo <= hi <= out.len(),
            stripped == out@.subrange(lo as int, out@.len() as int),
            trim_end_matches2(stripped, '-', '-') == trim_end_matches2(
                out@.subrange(lo as int, hi as int),
                '-',
                '-',
            ),
        decreases hi,
    {
        assert(out@.subrange(lo as int, hi as int).drop_last() =~= out@.subrange(
            lo as int,
            hi - 1,
        ));
        hi = hi - 1;
    }
    assert(trim_end_matches2(out@.subrange(lo as int, hi as int), '-', '-') == out@.subrange(
        lo as int,
        hi as int,
    ));
    if hi == lo {
        to_owned("x")
    } else {
        string_from_range(&out, lo, hi)
    }
}

/// The namespace a user-scoped journal gets: `u<uid>-<user>-<namespace>`
/// with both names sanitized.
pub open spec fn user_scoped(uid: u32, username: Seq<char>, namespace: Seq<char>) -> Seq<char> {
    "u"@ + decimal(uid as nat) + "-"@ + sanitized(username) + "-"@ + sanitized(namespace)
}

pub fn derive_user_scoped_namespace(namespace: &str, user: &UserIdentity) -> (r: String)
    ensures
        r@ == user_scoped(user.uid, user.username@, namespace@),
{
    let uid = u64_to_string(user.uid as u64);
    let user_component = sanitize_namespace_component(user.username.as_str());
    let namespace_component = sanitize_namespace_component(namespace);
    let mut r = concat3("u", uid.as_str(), "-");
    r.append(user_component.as_str());
    r.append("-");
    r.append(namespace_component.as_str());
    r
}

/// The namespace and identifier `systemd-cat` gets for `journal`, or why
/// there are none.
pub open spec fn journal_command_result(journal: JournalConfig, user: UserIdentity) -> Result<
    (Seq<char>, Option<Seq<char>>),
    Seq<char>,
> {
    match namespace_result(journal.namespace@) {
        Err(JournalNamespaceViolation::Empty) => Err("journal namespace cannot be empty"@),
        Err(JournalNamespaceViolation::ContainsNul) => Err(
            "journal namespace cannot contain NUL bytes"@,
        ),
        Ok(ns) => match invocation_identifier_result(opt_string_view(journal.identifier)) {
            Err(JournalIdentifierViolation::Blank) => Err(
                "journal identifier cannot be blank when provided"@,
            ),
            Err(JournalIdentifierViolation::ContainsNul) => Err(
                "journal identifier cannot contain NUL bytes"@,
            ),
            Ok(id) => Ok(
                (
                    if journal.user_scope {
                        user_scoped(user.uid, user.username@, ns)
                    } else {
                        ns
                    },
                    id,
                ),
            ),
        },
    }
}

/// Normalizes the journal namespace and identifier for `systemd-cat`; with
/// `user_scope` the namespace is scoped to `user`.
pub fn normalize_journal_config_for_command(journal: &JournalConfig, user: &UserIdentity) -> (r: Result<
    (String, Option<String>),
    ExecError,
>)
    ensures
        match journal_command_result(*journal, *user) {
            Ok((ns, id)) => r is Ok && r->Ok_0.0@ == ns && opt_string_view(r->Ok_0.1) == id,
            Err(m) => r is Err && r->Err_0.spec_message() == m,
        },
{
    let logical = match normalize_namespace(journal.namespace.as_str()) {
        Ok(ns) => ns,
        Err(JournalNamespaceViolation::Empty) => {
            return Err(ExecError::NamespaceEmpty);
        },
        Err(JournalNamespaceViolation::ContainsNul) => {
            return Err(ExecError::NamespaceContainsNul);
        },
    };
    let id_arg = match &journal.identifier {
        Some(s) => Some(s.as_str()),
        None => None,
    };
    assert(crate::journal_validation::opt_view(id_arg) == opt_string_view(journal.identifier));
    let identifier = match normalize_optional_identifier_for_invocation(id_arg) {
        Ok(id) => id,
        Err(JournalIdentifierViolation::Blank) => {
            return Err(ExecError::IdentifierBlank);
        },
        Err(JournalIdentifierViolation::ContainsNul) => {
            return Err(ExecError::IdentifierContainsNul);
        },
    };
    let namespace = if journal.user_scope {
        derive_user_scoped_namespace(logical.as_str(), user)
    } else {
        logical
    };
    Ok((namespace, identifier))
}

// ---------------------------------------------------------------------------
// Who is running
// ---------------------------------------------------------------------------

/// A user id written as text (the `UID` variable or `id -u`), read after
/// trimming.
pub fn parse_uid_text(value: &str) -> (r: Option<u32>)
    ensures
        match r {
            Some(n) => parse_unsigned(trim(value@), u32::MAX as nat) == Some(n as nat),
            None => parse_unsigned(trim(value@), u32::MAX as nat) is None,
        },
{
    let t = trim_str(value);
    parse_u32(t.as_str())
}

/// A name is usable when, trimmed, it is neither blank nor holds NUL.
pub open spec fn usable_name(value: Seq<char>) -> Option<Seq<char>> {
    if trim(value).len() == 0 || trim(value).contains('\0') {
        None
    } else {
        Some(trim(value))
    }
}

/// The trimmed text of a name (the `USER` variable or the output of
/// `id -un`), if usable.
pub fn usable_name_text(value: &str) -> (r: Option<String>)
    ensures
        opt_string_view(r) == usable_name(value@),
{
    let t = trim_str(value);
    if str_is_blank(t.as_str()) || contains_char(t.as_str(), '\0') {
        proof {
            crate::text::lemma_trim_idempotent(value@);
        }
        None
    } else {
        proof {
            crate::text::lemma_trim_idempotent(value@);
        }
        Some(t)
    }
}

/// The user name when neither `USER` nor `id -un` gives one.
pub fn fallback_username(uid: u32) -> (r: String)
    ensures
        r@ == "uid"@ + decimal(uid as nat),
{
    let n = u64_to_string(uid as u64);
    crate::text::concat2("uid", n.as_str())
}

// ---------------------------------------------------------------------------
// Journal broker
// ---------------------------------------------------------------------------

/// The broker command line: the variable's value trimmed, or the default
/// when it is unset or blank.
pub open spec fn broker_line(env_value: Option<Seq<char>>) -> Seq<char> {
    match env_value {
        Some(v) => if trim(v).len() > 0 {
            trim(v)
        } else {
            DEFAULT_JOURNAL_BROKER_CMD@
        },
        None => DEFAULT_JOURNAL_BROKER_CMD@,
    }
}

pub fn broker_command_line(env_value: Option<&str>) -> (r: String)
    ensures
        r@ == broker_line(crate::journal_validation::opt_view(env_value)),
{
    match env_value {
        Some(v) => {
            let t = trim_str(v);
            if str_is_blank(t.as_str()) {
                proof {
                    crate::text::lemma_trim_idempotent(v@);
                }
                to_owned(DEFAULT_JOURNAL_BROKER_CMD)
            } else {
                proof {
                    crate::text::lemma_trim_idempotent(v@);
                }
                t
            }
        },
        None => to_owned(DEFAULT_JOURNAL_BROKER_CMD),
    }
}

/// The program and arguments that ask the broker to ensure `namespace`:
/// the words of `line`, then `ensure --namespace <namespace>`.
pub open spec fn broker_argv(line: Seq<char>, namespace: Seq<char>) -> Result<
    (Seq<char>, Seq<Seq<char>>),
    Seq<char>,
> {
    match shell_split_words(line) {
        None => Err("CHOPPER_JOURNAL_BROKER_CMD must be a valid shell-style command line"@),
        Some(words) => if words.len() == 0 {
            Err("CHOPPER_JOURNAL_BROKER_CMD did not resolve to an executable command"@)
        } else {
            Ok((words[0], words.drop_first() + seq!["ensure"@, "--namespace"@, namespace]))
        },
    }
}

pub fn broker_invocation(line: &str, namespace: &str) -> (r: Result<(String, Vec<String>), ExecError>)
    ensures
        match broker_argv(line@, namespace@) {
            Ok((program, args)) => r is Ok && r->Ok_0.0@ == program && views(r->Ok_0.1@) == args,
            Err(m) => r is Err && r->Err_0.spec_message() == m,
        },
{
    let words = match shell_split(line) {
        Some(w) => w,
        None => {
            return Err(ExecError::BrokerCommandInvalid);
        },
    };
    if words.len() == 0 {
        return Err(ExecError::BrokerCommandEmpty);
    }
    let program = words[0].clone();
    let mut args: Vec<String> = Vec::new();
    let mut i: usize = 1;
    while i < words.len()
        invariant
            1 <= i <= words.len(),
            views(args@) == views(words@).subrange(1, i as int),
        decreases words.len() - i,
    {
        let ghost before = views(args@);
        args.push(words[i].clone());
        assert(views(args@) =~= before.push(words@[i as int]@));
        assert(views(words@).subrange(1, i + 1) =~= views(words@).subrange(1, i as int).push(
            words@[i as int]@,
        ));
        i = i + 1;
    }
    let ghost head = views(args@);
    args.push(to_owned("ensure"));
    args.push(to_owned("--namespace"));
    args.push(to_owned(namespace));
    assert(views(words@).subrange(1, words.len() as int) =~= views(words@).drop_first());
    assert(views(args@) =~= head + seq!["ensure"@, "--namespace"@, namespace@]);
    Ok((program, args))
}

// ---------------------------------------------------------------------------
// Launching
// ---------------------------------------------------------------------------

/// An invocation whose journal configuration asks for stderr runs through
/// `systemd-cat`; every other one is executed directly.
pub fn runs_with_journal(invocation: &Invocation) -> (r: bool)
    ensures
        r == (invocation.journal matches Some(j) && j.stderr),
{
    match &invocation.journal {
        Some(j) => j.stderr,
        None => false,
    }
}

/// The arguments of `systemd-cat` for a namespace and an optional
/// identifier.
pub open spec fn journal_cat_args(namespace: Seq<char>, identifier: Option<Seq<char>>) -> Seq<Seq<char>> {
    seq!["--namespace="@ + namespace] + match identifier {
        Some(id) => seq!["--identifier="@ + id],
        None => Seq::empty(),
    }
}

pub fn systemd_cat_args(namespace: &str, identifier: &Option<String>) -> (r: Vec<String>)
    ensures
        views(r@) == journal_cat_args(namespace@, opt_string_view(*identifier)),
{
    let mut r: Vec<String> = Vec::new();
    r.push(crate::text::concat2("--namespace=", namespace));
    if let Some(id) = identifier {
        r.push(crate::text::concat2("--identifier=", id.as_str()));
    }
    assert(views(r@) =~= journal_cat_args(namespace@, opt_string_view(*identifier)));
    r
}

// ---------------------------------------------------------------------------
// Exiting like the child
// ---------------------------------------------------------------------------

/// How the launcher ends after its child ended.
#[derive(Debug, Clone, Copy, PartialEq, Eq)]
pub enum ChildExit {
    /// The child succeeded.
    Success,
    /// Exit with this status code.
    Code(i32),
    /// The child ended without a code or signal.
    Unknown,
}

/// A failed child's code is passed on; a signal `s` becomes `128 + s`.
pub fn exit_like_child(success: bool, code: Option<i32>, signal: Option<i32>) -> (r: ChildExit)
    requires
        signal matches Some(s) ==> s <= i32::MAX - 128,
    ensures
        success ==> r == ChildExit::Success,
        !success && code is Some ==> r == ChildExit::Code(code->Some_0),
        !success && code is None && signal is Some ==> r == ChildExit::Code(
            (128 + signal->Some_0) as i32,
        ),
        !success && code is None && signal is None ==> r == ChildExit::Unknown,
{
    if success {
        return ChildExit::Success;
    }
    if let Some(c) = code {
        return ChildExit::Code(c);
    }
    if let Some(s) = signal {
        return ChildExit::Code(128 + s);
    }
    ChildExit::Unknown
}

// ---------------------------------------------------------------------------
// Shape of sanitized names
// ---------------------------------------------------------------------------

/// A character a sanitized namespace component may hold.
pub open spec fn namespace_char(c: char) -> bool {
    ('a' <= c <= 'z') || ('0' <= c <= '9') || c == '.' || c == '_' || c == '-'
}

proof fn lemma_sanitize_raw_chars(s: Seq<char>)
    ensures
        forall|i: int| 0 <= i < sanitize_raw(s).0.len() ==> namespace_char(#[trigger] sanitize_raw(s).0[i]),
    decreases s.len(),
{
    if s.len() > 0 {
        lemma_sanitize_raw_chars(s.drop_last());
        let ch = s.last();
        if is_ascii_alphanumeric(ch) {
            assert(namespace_char(lower_char(ch))) by {
                if 'A' <= ch <= 'Z' {
                    assert((ch as u32) + 32 <= 'z' as u32);
                    assert(lower_char(ch) as u32 == (ch as u32) + 32);
                }
            }
        }
        let out = sanitize_raw(s.drop_last()).0;
        assert forall|i: int| 0 <= i < sanitize_raw(s).0.len() implies namespace_char(
            #[trigger] sanitize_raw(s).0[i],
        ) by {
            if i < out.len() {
                assert(out[i] == out[i]);
            }
        }
    }
}

proof fn lemma_strip_leading(s: Seq<char>, c: char)
    ensures
        exists|k: int| 0 <= k <= s.len() && strip_leading(s, c) == #[trigger] s.subrange(k, s.len() as int),
        strip_leading(s, c).len() > 0 ==> strip_leading(s, c)[0] != c,
    decreases s.len(),
{
    if s.len() > 0 && s[0] == c {
        lemma_strip_leading(s.drop_first(), c);
        let k = choose|k: int| 0 <= k <= s.drop_first().len() && strip_leading(s.drop_first(), c)
            == #[trigger] s.drop_first().subrange(k, s.drop_first().len() as int);
        assert(s.drop_first().subrange(k, s.drop_first().len() as int) =~= s.subrange(k + 1, s.len() as int));
    } else {
        assert(s.subrange(0, s.len() as int) =~= s);
    }
}

proof fn lemma_trim_end_dash(s: Seq<char>)
    ensures
        exists|k: int| 0 <= k <= s.len() && trim_end_matches2(s, '-', '-') == #[trigger] s.subrange(0, k),
        trim_end_matches2(s, '-', '-').len() > 0 ==> trim_end_matches2(s, '-', '-').last() != '-',
    decreases s.len(),
{
    if s.len() > 0 && s.last() == '-' {
        lemma_trim_end_dash(s.drop_last());
        let k = choose|k: int| 0 <= k <= s.drop_last().len() && trim_end_matches2(s.drop_last(), '-', '-')
            == #[trigger] s.drop_last().subrange(0, k);
        assert(s.drop_last().subrange(0, k) =~= s.subrange(0, k));
    } else {
        assert(s.subrange(0, s.len() as int) =~= s);
    }
}

/// A sanitized component is never empty, holds only lowercase ASCII
/// letters, digits, `.`, `_` and `-`, and neither starts nor ends with `-`.
pub proof fn lemma_sanitized_shape(s: Seq<char>)
    ensures
        sanitized(s).len() > 0,
        forall|i: int| 0 <= i < sanitized(s).len() ==> namespace_char(#[trigger] sanitized(s)[i]),
        sanitized(s)[0] != '-',
        sanitized(s).last() != '-',
{
    let raw = sanitize_raw(s).0;
    lemma_sanitize_raw_chars(s);
    let a = strip_leading(raw, '-');
    lemma_strip_leading(raw, '-');
    let k1 = choose|k: int| 0 <= k <= raw.len() && a == #[trigger] raw.subrange(k, raw.len() as int);
    let t = trim_end_matches2(a, '-', '-');
    lemma_trim_end_dash(a);
    let k2 = choose|k: int| 0 <= k <= a.len() && t == #[trigger] a.subrange(0, k);
    assert forall|i: int| 0 <= i < t.len() implies namespace_char(#[trigger] t[i]) by {
        assert(t[i] == raw[k1 + i]);
    }
    if t.len() > 0 {
        assert(t[0] == a[0]);
    } else {
        reveal_strlit("x");
    }
}

} // verus!
