//! Alias configuration files: a TOML document, or a legacy one-line
//! command. Reading the file, decoding TOML into [`AliasConfig`] and
//! looking commands up on `PATH` stay with the caller.
use crate::alias_paths::{join_path, path_join};
use crate::env_map::{lemma_pairs_map_dom, pair_view, pairs_map, StringMap};
use crate::executor::strip_leading;
use crate::journal_validation::opt_string_view;
use crate::manifest::{JournalConfig, Manifest, ReconcileConfig};
use crate::reconcile::has_key;
use crate::rhai_wiring::{source_lines, text_lines};
use crate::shell_text::{shell_split, shell_split_words};
use crate::text::{
    ascii_lower, chars_of, concat3, split_on, str_eq, string_from_range, to_owned,
    trim, trim_str, vec_ascii_lower, views,
};
use vstd::prelude::*;

verus! {

/// The `[journal]` table of an alias document.
#[derive(Debug, Clone, PartialEq, Eq)]
pub struct JournalConfigInput {
    pub namespace: String,
    pub stderr: bool,
    pub identifier: Option<String>,
    pub user_scope: bool,
    pub ensure: bool,
}

/// The `[reconcile]` table of an alias document.
#[derive(Debug, Clone, PartialEq, Eq)]
pub struct ReconcileConfigInput {
    pub script: String,
    pub function: Option<String>,
}

/// An alias document as decoded from TOML, before it is checked.
#[derive(Debug, PartialEq, Eq)]
pub struct AliasConfig {
    pub executable: String,
    pub args: Vec<String>,
    pub env: StringMap,
    pub env_remove: Vec<String>,
    pub journal: Option<JournalConfigInput>,
    pub reconcile: Option<ReconcileConfigInput>,
}

/// Why a configuration file is refused.
#[derive(Debug, Clone, PartialEq, Eq)]
pub enum ParseError {
    EmptyConfigFile,
    MissingClosingQuote,
    NoCommand,
    EmptyExec,
    EnvEmptyKey,
    EnvDuplicateKey { key: String },
    EmptyJournalNamespace,
    EmptyReconcileScript,
}

impl ParseError {
    pub open spec fn spec_message(&self) -> Seq<char> {
        match self {
            ParseError::EmptyConfigFile => "empty config file"@,
            ParseError::MissingClosingQuote => "missing closing quote"@,
            ParseError::NoCommand => "no command found"@,
            ParseError::EmptyExec => "field `exec` cannot be empty"@,
            ParseError::EnvEmptyKey => "field `env` cannot contain empty keys"@,
            ParseError::EnvDuplicateKey { key } =>
                "field `env` contains duplicate keys after trimming: `"@ + key@ + "`"@,
            ParseError::EmptyJournalNamespace => "field `journal.namespace` cannot be empty"@,
            ParseError::EmptyReconcileScript => "field `reconcile.script` cannot be empty"@,
        }
    }

    /// The text shown to the user.
    pub fn message(&self) -> (r: String)
        ensures
            r@ == self.spec_message(),
    {
        match self {
            ParseError::EmptyConfigFile => to_owned("empty config file"),
            ParseError::MissingClosingQuote => to_owned("missing closing quote"),
            ParseError::NoCommand => to_owned("no command found"),
            ParseError::EmptyExec => to_owned("field `exec` cannot be empty"),
            ParseError::EnvEmptyKey => to_owned("field `env` cannot contain empty keys"),
            ParseError::EnvDuplicateKey { key } => concat3(
                "field `env` contains duplicate keys after trimming: `",
                key.as_str(),
                "`",
            ),
            ParseError::EmptyJournalNamespace => to_owned("field `journal.namespace` cannot be empty"),
            ParseError::EmptyReconcileScript => to_owned("field `reconcile.script` cannot be empty"),
        }
    }
}

pub open spec fn err_is<T>(r: Result<T, ParseError>, msg: Seq<char>) -> bool {
    r is Err && r->Err_0.spec_message() == msg
}

// ---------------------------------------------------------------------------
// Which kind of file
// ---------------------------------------------------------------------------

/// The last component of a path that names something (`Path::file_name`):
/// empty and `.` components are skipped; `..` names nothing.
pub open spec fn last_name(pieces: Seq<Seq<char>>) -> Option<Seq<char>>
    decreases pieces.len(),
{
    if pieces.len() == 0 {
        None
    } else if pieces.last().len() == 0 || pieces.last() == "."@ {
        last_name(pieces.drop_last())
    } else if pieces.last() == ".."@ {
        None
    } else {
        Some(pieces.last())
    }
}

/// Position of the last `c` in `s`, or -1.
pub open spec fn last_index_of(s: Seq<char>, c: char) -> int
    decreases s.len(),
{
    if s.len() == 0 {
        -1
    } else if s.last() == c {
        s.len() - 1
    } else {
        last_index_of(s.drop_last(), c)
    }
}

/// The extension of a path (`Path::extension`): what follows the last `.`
/// of the file name, unless that `.` starts the name.
pub open spec fn path_extension(path: Seq<char>) -> Option<Seq<char>> {
    match last_name(split_on(path, '/')) {
        None => None,
        Some(name) => {
            let k = last_index_of(name, '.');
            if k <= 0 {
                None
            } else {
                Some(name.subrange(k + 1, name.len() as int))
            }
        },
    }
}

/// A file whose extension is `toml` in any ASCII case holds TOML.
pub open spec fn toml_path(path: Seq<char>) -> bool {
    match path_extension(path) {
        Some(e) => ascii_lower(e) == "toml"@,
        None => false,
    }
}

proof fn lemma_last_name_prefix(pieces: Seq<Seq<char>>, k: int)
    requires
        0 <= k <= pieces.len(),
        forall|j: int| k <= j < pieces.len() ==> (#[trigger] pieces[j]).len() == 0 || pieces[j] == "."@,
    ensures
        last_name(pieces) == last_name(pieces.take(k)),
    decreases pieces.len() - k,
{
    if k < pieces.len() {
        assert(pieces.drop_last().take(k) =~= pieces.take(k));
        assert forall|j: int| k <= j < pieces.drop_last().len() implies (#[trigger] pieces.drop_last()[j]).len()
            == 0 || pieces.drop_last()[j] == "."@ by {
            assert(pieces.drop_last()[j] == pieces[j]);
        }
        lemma_last_name_prefix(pieces.drop_last(), k);
    } else {
        assert(pieces.take(k) =~= pieces);
    }
}

fn file_name_of(path: &str) -> (r: Option<String>)
    ensures
        opt_string_view(r) == last_name(split_on(path@, '/')),
{
    let parts = crate::text::split_str(path, '/');
    let ghost p = split_on(path@, '/');
    assert(views(parts@) =~= p);
    let mut k: usize = parts.len();
    while k > 0 && (chars_of(parts[k - 1].as_str()).len() == 0 || str_eq(parts[k - 1].as_str(), "."))
        invariant
            0 <= k <= parts.len(),
            views(parts@) == p,
            forall|j: int| k <= j < p.len() ==> (#[trigger] p[j]).len() == 0 || p[j] == "."@,
        decreases k,
    {
        k = k - 1;
    }
    proof {
        lemma_last_name_prefix(p, k as int);
    }
    if k == 0 {
        return None;
    }
    assert(p.take(k as int).last() == parts@[k - 1]@);
    assert(p.take(k as int).last().len() > 0 && p.take(k as int).last() != "."@);
    if str_eq(parts[k - 1].as_str(), "..") {
        return None;
    }
    Some(parts[k - 1].clone())
}

/// The extension of the file a path names (`Path::extension`).
pub fn file_extension(path: &str) -> (r: Option<String>)
    ensures
        opt_string_view(r) == path_extension(path@),
{
    let name = match file_name_of(path) {
        Some(n) => n,
        None => {
            return None;
        },
    };
    let v = chars_of(name.as_str());
    let mut k: usize = v.len();
    assert(v@.take(v@.len() as int) =~= v@);
    while k > 0 && v[k - 1] != '.'
        invariant
            0 <= k <= v.len(),
            v@ == name@,
            last_index_of(v@, '.') == last_index_of(v@.take(k as int), '.'),
        decreases k,
    {
        assert(v@.take(k as int).drop_last() =~= v@.take(k - 1));
        k = k - 1;
    }
    proof {
        if k > 0 {
            assert(v@.take(k as int).last() == '.');
        }
    }
    if k <= 1 {
        return None;
    }
    Some(string_from_range(&v, k, v.len()))
}

/// Whether the configuration at `path` is a TOML document.
pub fn is_toml_path(path: &str) -> (r: bool)
    ensures
        r == toml_path(path@),
{
    match file_extension(path) {
        None => false,
        Some(e) => {
            let v = chars_of(e.as_str());
            let lower = string_from_range(&vec_ascii_lower(&v), 0, v.len());
            assert(lower@ =~= ascii_lower(e@));
            str_eq(lower.as_str(), "toml")
        },
    }
}

// ---------------------------------------------------------------------------
// Legacy one-line aliases
// ---------------------------------------------------------------------------

/// A legacy line trimmed, with byte-order marks after the leading space
/// removed and trimmed again.
pub open spec fn legacy_line(line: Seq<char>) -> Seq<char> {
    trim(strip_leading(trim(line), '\u{feff}'))
}

/// The first legacy line that is neither blank nor a `#` comment.
pub open spec fn first_command_line(lines: Seq<Seq<char>>) -> Option<Seq<char>>
    decreases lines.len(),
{
    if lines.len() == 0 {
        None
    } else {
        match first_command_line(lines.drop_last()) {
            Some(l) => Some(l),
            None => {
                let l = legacy_line(lines.last());
                if l.len() > 0 && l[0] != '#' {
                    Some(l)
                } else {
                    None
                }
            },
        }
    }
}

/// The words of a legacy alias: its first command line split like a shell
/// would.
pub open spec fn legacy_words(content: Seq<char>) -> Result<Seq<Seq<char>>, Seq<char>> {
    match first_command_line(text_lines(content)) {
        None => Err("empty config file"@),
        Some(l) => match shell_split_words(l) {
            None => Err("missing closing quote"@),
            Some(w) => if w.len() == 0 {
                Err("no command found"@)
            } else {
                Ok(w)
            },
        },
    }
}

pub fn normalize_legacy_line(line: &str) -> (r: String)
    ensures
        r@ == legacy_line(line@),
{
    let t = trim_str(line);
    let v = chars_of(t.as_str());
    let mut i: usize = 0;
    assert(v@.subrange(0, v@.len() as int) =~= v@);
    while i < v.len() && v[i] == '\u{feff}'
        invariant
            0 <= i <= v.len(),
            v@ == t@,
            strip_leading(v@, '\u{feff}') == strip_leading(v@.subrange(i as int, v@.len() as int), '\u{feff}'),
        decreases v.len() - i,
    {
        assert(v@.subrange(i as int, v@.len() as int).drop_first() =~= v@.subrange(i + 1, v@.len() as int));
        i = i + 1;
    }
    let rest = string_from_range(&v, i, v.len());
    proof {
        let s = v@.subrange(i as int, v@.len() as int);
        if s.len() > 0 {
            assert(s[0] == v@[i as int]);
        }
    }
    trim_str(rest.as_str())
}

proof fn lemma_first_command_sticks(s: Seq<Seq<char>>, k: int)
    requires
        0 <= k <= s.len(),
        first_command_line(s.take(k)) is Some,
    ensures
        first_command_line(s) == first_command_line(s.take(k)),
    decreases s.len() - k,
{
    if k < s.len() {
        assert(s.take(k + 1).drop_last() =~= s.take(k));
        lemma_first_command_sticks(s, k + 1);
    } else {
        assert(s.take(k) =~= s);
    }
}

/// The command words of a legacy alias file.
pub fn legacy_command_words(content: &str) -> (r: Result<Vec<String>, ParseError>)
    ensures
        match legacy_words(content@) {
            Ok(w) => r is Ok && views(r->Ok_0@) == w,
            Err(m) => err_is(r, m),
        },
{
    let lines = source_lines(content);
    let ghost ls = text_lines(content@);
    let mut i: usize = 0;
    assert(ls.take(0) =~= Seq::<Seq<char>>::empty());
    while i < lines.len()
        invariant
            0 <= i <= lines.len(),
            views(lines@) == ls,
            ls == text_lines(content@),
            first_command_line(ls.take(i as int)) is None,
        decreases lines.len() - i,
    {
        assert(ls.take(i + 1).drop_last() =~= ls.take(i as int));
        assert(ls.take(i + 1).last() == lines@[i as int]@);
        let l = normalize_legacy_line(lines[i].as_str());
        let lv = chars_of(l.as_str());
        if lv.len() > 0 && lv[0] != '#' {
            proof {
                lemma_first_command_sticks(ls, i + 1);
            }
            let words = match shell_split(l.as_str()) {
                Some(w) => w,
                None => {
                    return Err(ParseError::MissingClosingQuote);
                },
            };
            if words.len() == 0 {
                return Err(ParseError::NoCommand);
            }
            return Ok(words);
        }
        i = i + 1;
    }
    assert(ls.take(lines.len() as int) =~= ls);
    Err(ParseError::EmptyConfigFile)
}

/// The manifest of a legacy alias: the first word runs (as found on `PATH`,
/// when it was), with the other words as arguments.
pub fn manifest_from_legacy_words(words: &Vec<String>, found_on_path: Option<String>) -> (r: Manifest)
    requires
        words@.len() > 0,
    ensures
        r.executable@ == match found_on_path {
            Some(p) => p@,
            None => words@[0]@,
        },
        views(r.args@) == views(words@).drop_first(),
        r.env@ == Map::<Seq<char>, Seq<char>>::empty(),
        r.env_remove@.len() == 0,
        r.path is None,
        r.journal is None,
        r.reconcile is None,
        r.bashcomp is None,
{
    let exec = match found_on_path {
        Some(p) => p,
        None => words[0].clone(),
    };
    let rest = &words.as_slice()[1..words.len()];
    assert(views(rest@) =~= views(words@).drop_first());
    Manifest::simple(exec).with_args(crate::alias_admin::strings_of(rest))
}

/// Drops one leading byte-order mark.
pub fn strip_utf8_bom(content: &str) -> (r: String)
    ensures
        r@ == (if content@.len() > 0 && content@[0] == '\u{feff}' {
            content@.drop_first()
        } else {
            content@
        }),
{
    let v = chars_of(content);
    if v.len() > 0 && v[0] == '\u{feff}' {
        let r = string_from_range(&v, 1, v.len());
        assert(r@ =~= content@.drop_first());
        r
    } else {
        to_owned(content)
    }
}

// ---------------------------------------------------------------------------
// TOML documents
// ---------------------------------------------------------------------------

/// `env` keys trimmed; a blank key or two keys equal after trimming refuse
/// the table.
pub open spec fn env_result(pairs: Seq<(Seq<char>, Seq<char>)>) -> Result<
    Seq<(Seq<char>, Seq<char>)>,
    Seq<char>,
>
    decreases pairs.len(),
{
    if pairs.len() == 0 {
        Ok(Seq::empty())
    } else {
        match env_result(pairs.drop_last()) {
            Err(e) => Err(e),
            Ok(acc) => {
                let k = trim(pairs.last().0);
                if k.len() == 0 {
                    Err("field `env` cannot contain empty keys"@)
                } else if has_key(acc, k) {
                    Err("field `env` contains duplicate keys after trimming: `"@ + k + "`"@)
                } else {
                    Ok(acc.push((k, pairs.last().1)))
                }
            },
        }
    }
}

proof fn lemma_env_err_sticks(s: Seq<(Seq<char>, Seq<char>)>, k: int)
    requires
        0 <= k <= s.len(),
        env_result(s.take(k)) is Err,
    ensures
        env_result(s) == env_result(s.take(k)),
    decreases s.len() - k,
{
    if k < s.len() {
        assert(s.take(k + 1).drop_last() =~= s.take(k));
        lemma_env_err_sticks(s, k + 1);
    } else {
        assert(s.take(k) =~= s);
    }
}

/// Trims the `env` keys of a document (see [`env_result`]).
pub fn normalize_env_map(env: &StringMap) -> (r: Result<StringMap, ParseError>)
    ensures
        match env_result(env.pairs()) {
            Ok(acc) => r is Ok && r->Ok_0@ == pairs_map(acc),
            Err(m) => err_is(r, m),
        },
{
    let pairs = env.to_pairs();
    let ghost pv = env.pairs();
    let mut normalized = StringMap::new();
    let ghost mut acc: Seq<(Seq<char>, Seq<char>)> = Seq::empty();
    let mut i: usize = 0;
    assert(pv.take(0) =~= Seq::<(Seq<char>, Seq<char>)>::empty());
    while i < pairs.len()
        invariant
            0 <= i <= pairs.len(),
            pv == pairs@.map_values(|p: (String, String)| pair_view(p)),
            pv == env.pairs(),
            env_result(pv.take(i as int)) == Ok::<Seq<(Seq<char>, Seq<char>)>, Seq<char>>(acc),
            normalized@ == pairs_map(acc),
        decreases pairs.len() - i,
    {
        assert(pv.take(i + 1).drop_last() =~= pv.take(i as int));
        assert(pv.take(i + 1).last() == pair_view(pairs@[i as int]));
        let (key, value) = &pairs[i];
        let k = trim_str(key.as_str());
        if chars_of(k.as_str()).len() == 0 {
            proof {
                lemma_env_err_sticks(pv, i + 1);
            }
            return Err(ParseError::EnvEmptyKey);
        }
        proof {
            lemma_pairs_map_dom(acc, k@);
        }
        if normalized.contains_key(k.as_str()) {
            proof {
                lemma_env_err_sticks(pv, i + 1);
            }
            return Err(ParseError::EnvDuplicateKey { key: k });
        }
        let ghost kv = k@;
        normalized.insert(k, value.clone());
        proof {
            let old_acc = acc;
            acc = acc.push((kv, value@));
            assert(acc.drop_last() =~= old_acc);
        }
        i = i + 1;
    }
    assert(pv.take(pairs.len() as int) =~= pv);
    Ok(normalized)
}

/// `env_remove` entries trimmed, blank ones dropped.
pub open spec fn trimmed_keys(keys: Seq<Seq<char>>) -> Seq<Seq<char>>
    decreases keys.len(),
{
    if keys.len() == 0 {
        Seq::empty()
    } else if trim(keys.last()).len() == 0 {
        trimmed_keys(keys.drop_last())
    } else {
        trimmed_keys(keys.drop_last()).push(trim(keys.last()))
    }
}

pub fn normalize_env_remove(env_remove: &Vec<String>) -> (r: Vec<String>)
    ensures
        views(r@) == trimmed_keys(views(env_remove@)),
{
    let ghost kv = views(env_remove@);
    let mut out: Vec<String> = Vec::new();
    let mut i: usize = 0;
    assert(kv.take(0) =~= Seq::<Seq<char>>::empty());
    assert(views(out@) =~= Seq::<Seq<char>>::empty());
    while i < env_remove.len()
        invariant
            0 <= i <= env_remove.len(),
            kv == views(env_remove@),
            views(out@) == trimmed_keys(kv.take(i as int)),
        decreases env_remove.len() - i,
    {
        assert(kv.take(i + 1).drop_last() =~= kv.take(i as int));
        assert(kv.take(i + 1).last() == env_remove@[i as int]@);
        let k = trim_str(env_remove[i].as_str());
        if chars_of(k.as_str()).len() > 0 {
            let ghost before = views(out@);
            let ghost kk = k@;
            out.push(k);
            assert(views(out@) =~= before.push(kk));
        }
        i = i + 1;
    }
    assert(kv.take(env_remove.len() as int) =~= kv);
    out
}

/// Where a reconcile script is: an absolute path as given, else relative
/// to the directory of the (resolved) configuration file.
pub open spec fn script_location(base_dir: Seq<char>, script: Seq<char>) -> Seq<char> {
    if script.len() > 0 && script[0] == '/' {
        script
    } else {
        path_join(base_dir, script)
    }
}

pub fn resolve_script_path(base_dir: &str, script: &str) -> (r: String)
    ensures
        r@ == script_location(base_dir@, script@),
{
    let v = chars_of(script);
    if v.len() > 0 && v[0] == '/' {
        to_owned(script)
    } else {
        join_path(base_dir, script)
    }
}

/// The first problem of a decoded document, checked in field order.
pub open spec fn config_problem(c: AliasConfig) -> Option<Seq<char>> {
    if trim(c.executable@).len() == 0 {
        Some("field `exec` cannot be empty"@)
    } else if env_result(c.env.pairs()) is Err {
        Some(env_result(c.env.pairs())->Err_0)
    } else if c.journal matches Some(j) && trim(j.namespace@).len() == 0 {
        Some("field `journal.namespace` cannot be empty"@)
    } else if c.reconcile matches Some(rc) && trim(rc.script@).len() == 0 {
        Some("field `reconcile.script` cannot be empty"@)
    } else {
        None
    }
}

/// The manifest a valid document gives.
pub open spec fn manifest_matches(m: Manifest, c: AliasConfig, found_on_path: Option<Seq<char>>, base_dir: Seq<char>) -> bool {
    &&& m.executable@ == match found_on_path {
        Some(p) => p,
        None => trim(c.executable@),
    }
    &&& m.args == c.args
    &&& m.env@ == pairs_map(env_result(c.env.pairs())->Ok_0)
    &&& views(m.env_remove@) == trimmed_keys(views(c.env_remove@))
    &&& m.path is None
    &&& m.bashcomp is None
    &&& match c.journal {
        None => m.journal is None,
        Some(j) => m.journal matches Some(mj) && mj.namespace@ == trim(j.namespace@) && mj.stderr
            == j.stderr && opt_string_view(mj.identifier) == (match j.identifier {
            Some(i) => if trim(i@).len() > 0 {
                Some(trim(i@))
            } else {
                None
            },
            None => None,
        }) && mj.user_scope == j.user_scope && mj.ensure == j.ensure,
    }
    &&& match c.reconcile {
        None => m.reconcile is None,
        Some(rc) => m.reconcile matches Some(mr) && mr.script@ == script_location(
            base_dir,
            trim(rc.script@),
        ) && mr.function@ == (match rc.function {
            Some(f) => if trim(f@).len() > 0 {
                trim(f@)
            } else {
                "reconcile"@
            },
            None => "reconcile"@,
        }),
    }
}

/// A manifest built from a document keeps its journal choices: journaling
/// is on exactly when the document has a `[journal]` table, and stderr
/// capture, user scope and the ensure flag are the document's; the
/// namespace is the document's, trimmed.
pub proof fn lemma_manifest_keeps_journal_choices(
    m: Manifest,
    c: AliasConfig,
    found_on_path: Option<Seq<char>>,
    base_dir: Seq<char>,
)
    requires
        manifest_matches(m, c, found_on_path, base_dir),
    ensures
        c.journal is None <==> m.journal is None,
        c.journal matches Some(j) ==> (m.journal matches Some(mj) && mj.stderr == j.stderr
            && mj.user_scope == j.user_scope && mj.ensure == j.ensure && mj.namespace@ == trim(
            j.namespace@,
        )),
        c.journal matches Some(j) ==> (m.journal matches Some(mj) && (j.identifier is None
            ==> mj.identifier is None)),
        c.journal matches Some(j) ==> (m.journal matches Some(mj) && (j.identifier matches Some(i)
            ==> (trim(i@).len() == 0 ==> mj.identifier is None) && (trim(i@).len() > 0
            ==> (mj.identifier matches Some(mi) && mi@ == trim(i@))))),
{
}

/// A manifest built from a document runs the command found on `PATH`, or
/// else the document's command trimmed, with the document's arguments; a
/// reconcile table without a (non-blank) function name calls `reconcile`.
pub proof fn lemma_manifest_runs_document_command(
    m: Manifest,
    c: AliasConfig,
    found_on_path: Option<Seq<char>>,
    base_dir: Seq<char>,
)
    requires
        manifest_matches(m, c, found_on_path, base_dir),
    ensures
        found_on_path matches Some(p) ==> m.executable@ == p,
        found_on_path is None ==> m.executable@ == trim(c.executable@),
        m.args == c.args,
        m.path is None,
        c.reconcile is None <==> m.reconcile is None,
        c.reconcile matches Some(rc) ==> (m.reconcile matches Some(mr) && (rc.function is None
            ==> mr.function@ == "reconcile"@)),
{
}

fn trimmed_non_blank(o: &Option<String>) -> (r: Option<String>)
    ensures
        opt_string_view(r) == (match *o {
            Some(i) => if trim(i@).len() > 0 {
                Some(trim(i@))
            } else {
                None
            },
            None => None,
        }),
{
    match o {
        Some(i) => {
            let t = trim_str(i.as_str());
            if chars_of(t.as_str()).len() > 0 {
                Some(t)
            } else {
                None
            }
        },
        None => None,
    }
}

/// Checks a decoded document and builds its manifest. The command runs as
/// found on `PATH` (`found_on_path`), else as written; a relative reconcile
/// script is taken from `base_dir`.
pub fn manifest_from_config(config: AliasConfig, found_on_path: Option<String>, base_dir: &str) -> (r: Result<
    Manifest,
    ParseError,
>)
    ensures
        match config_problem(config) {
            Some(m) => err_is(r, m),
            None => r is Ok && manifest_matches(
                r->Ok_0,
                config,
                opt_string_view(found_on_path),
                base_dir@,
            ),
        },
        r is Ok ==> (match config.journal {
            None => r->Ok_0.journal is None,
            Some(j) => (r->Ok_0.journal matches Some(mj) && mj.stderr == j.stderr && mj.user_scope
                == j.user_scope && mj.ensure == j.ensure && mj.namespace@ == trim(j.namespace@)),
        }),
        r is Ok ==> r->Ok_0.args == config.args,
{
    let exec = trim_str(config.executable.as_str());
    if chars_of(exec.as_str()).len() == 0 {
        return Err(ParseError::EmptyExec);
    }
    let executable = match found_on_path {
        Some(p) => p,
        None => exec,
    };
    let env = normalize_env_map(&config.env)?;
    let env_remove = normalize_env_remove(&config.env_remove);
    let journal = match &config.journal {
        Some(j) => {
            let ns = trim_str(j.namespace.as_str());
            if chars_of(ns.as_str()).len() == 0 {
                return Err(ParseError::EmptyJournalNamespace);
            }
            Some(
                JournalConfig {
                    namespace: ns,
                    stderr: j.stderr,
                    identifier: trimmed_non_blank(&j.identifier),
                    user_scope: j.user_scope,
                    ensure: j.ensure,
                },
            )
        },
        None => None,
    };
    let reconcile = match &config.reconcile {
        Some(rc) => {
            let script = trim_str(rc.script.as_str());
            if chars_of(script.as_str()).len() == 0 {
                return Err(ParseError::EmptyReconcileScript);
            }
            let function = match trimmed_non_blank(&rc.function) {
                Some(f) => f,
                None => to_owned("reconcile"),
            };
            Some(
                ReconcileConfig {
                    script: resolve_script_path(base_dir, script.as_str()),
                    function,
                },
            )
        },
        None => None,
    };
    let AliasConfig { args, .. } = config;
    Ok(
        Manifest {
            executable,
            args,
            env,
            env_remove,
            path: None,
            journal,
            reconcile,
            bashcomp: None,
        },
    )
}

} // verus!
