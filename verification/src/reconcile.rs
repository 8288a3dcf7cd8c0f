//! The patch a reconcile script returns: reading it from the script's
//! value and normalizing each of its fields. Running the script stays with
//! the caller, which hands over the returned value as a [`PatchValue`].
use crate::env_map::{lemma_pairs_map_dom, pair_view, pairs_map, StringMap};
use crate::manifest::RuntimePatch;
use crate::text::{concat3, contains_char, str_eq, to_owned, trim, trim_str, views};
use vstd::prelude::*;

verus! {

/// A value returned by a reconcile script, as far as patches read it.
#[derive(Debug)]
pub enum PatchValue {
    /// A string.
    Text(String),
    /// An array.
    List(Vec<PatchValue>),
    /// An object map, in the script engine's key order.
    Table(Vec<(String, PatchValue)>),
    /// Anything else.
    Other,
}

/// Why a reconcile patch is refused.
#[derive(Debug, Clone, PartialEq, Eq)]
pub enum ReconcileError {
    NotAMap,
    UnsupportedKey { key: String },
    NotAnArray { key: String },
    NotAnObject { key: String },
    NotAString { field: String },
    SetEnvEmptyKey,
    SetEnvKeyContainsEquals { key: String },
    SetEnvKeyContainsNul,
    SetEnvValueContainsNul { key: String },
    SetEnvDuplicateKey { key: String },
    ArgContainsNul { field: String },
    RemoveEnvContainsEquals { key: String },
    RemoveEnvContainsNul,
}

impl ReconcileError {
    pub open spec fn spec_message(&self) -> Seq<char> {
        match self {
            ReconcileError::NotAMap => "reconcile function must return an object/map"@,
            ReconcileError::UnsupportedKey { key } => unsupported_key_message(key@),
            ReconcileError::NotAnArray { key } => "`"@ + key@ + "` must be an array"@,
            ReconcileError::NotAnObject { key } => "`"@ + key@ + "` must be an object/map"@,
            ReconcileError::NotAString { field } => "all values in `"@ + field@
                + "` must be strings"@,
            ReconcileError::SetEnvEmptyKey => "`set_env` cannot contain empty keys"@,
            ReconcileError::SetEnvKeyContainsEquals { key } => "`set_env` keys cannot contain `=`: `"@
                + key@ + "`"@,
            ReconcileError::SetEnvKeyContainsNul => "`set_env` keys cannot contain NUL bytes"@,
            ReconcileError::SetEnvValueContainsNul { key } =>
                "`set_env` values cannot contain NUL bytes for key `"@ + key@ + "`"@,
            ReconcileError::SetEnvDuplicateKey { key } =>
                "`set_env` contains duplicate keys after trimming: `"@ + key@ + "`"@,
            ReconcileError::ArgContainsNul { field } => "`"@ + field@
                + "` entries cannot contain NUL bytes"@,
            ReconcileError::RemoveEnvContainsEquals { key } =>
                "`remove_env` entries cannot contain `=`: `"@ + key@ + "`"@,
            ReconcileError::RemoveEnvContainsNul => "`remove_env` entries cannot contain NUL bytes"@,
        }
    }

    /// The text shown to the user.
    pub fn message(&self) -> (r: String)
        ensures
            r@ == self.spec_message(),
    {
        match self {
            ReconcileError::NotAMap => to_owned("reconcile function must return an object/map"),
            ReconcileError::UnsupportedKey { key } => concat3(
                "unsupported reconcile patch key `",
                key.as_str(),
                "`; supported keys: append_args, replace_args, set_env, remove_env",
            ),
            ReconcileError::NotAnArray { key } => concat3("`", key.as_str(), "` must be an array"),
            ReconcileError::NotAnObject { key } => concat3(
                "`",
                key.as_str(),
                "` must be an object/map",
            ),
            ReconcileError::NotAString { field } => concat3(
                "all values in `",
                field.as_str(),
                "` must be strings",
            ),
            ReconcileError::SetEnvEmptyKey => to_owned("`set_env` cannot contain empty keys"),
            ReconcileError::SetEnvKeyContainsEquals { key } => concat3(
                "`set_env` keys cannot contain `=`: `",
                key.as_str(),
                "`",
            ),
            ReconcileError::SetEnvKeyContainsNul => to_owned(
                "`set_env` keys cannot contain NUL bytes",
            ),
            ReconcileError::SetEnvValueContainsNul { key } => concat3(
                "`set_env` values cannot contain NUL bytes for key `",
                key.as_str(),
                "`",
            ),
            ReconcileError::SetEnvDuplicateKey { key } => concat3(
                "`set_env` contains duplicate keys after trimming: `",
                key.as_str(),
                "`",
            ),
            ReconcileError::ArgContainsNul { field } => concat3(
                "`",
                field.as_str(),
                "` entries cannot contain NUL bytes",
            ),
            ReconcileError::RemoveEnvContainsEquals { key } => concat3(
                "`remove_env` entries cannot contain `=`: `",
                key.as_str(),
                "`",
            ),
            ReconcileError::RemoveEnvContainsNul => to_owned(
                "`remove_env` entries cannot contain NUL bytes",
            ),
        }
    }
}

pub open spec fn unsupported_key_message(key: Seq<char>) -> Seq<char> {
    "unsupported reconcile patch key `"@ + key
        + "`; supported keys: append_args, replace_args, set_env, remove_env"@
}

/// The outcome of a step: the value, or the message it is refused with.
pub open spec fn err_is<T>(r: Result<T, ReconcileError>, msg: Seq<char>) -> bool {
    r is Err && r->Err_0.spec_message() == msg
}

// ---------------------------------------------------------------------------
// Normalizing fields
// ---------------------------------------------------------------------------

/// `append_args`/`replace_args`: every entry is kept, none may hold NUL.
pub open spec fn args_ok(values: Seq<Seq<char>>) -> bool {
    forall|i: int| 0 <= i < values.len() ==> !(#[trigger] values[i]).contains('\0')
}

pub fn normalize_patch_args(values: Vec<String>, field: &str) -> (r: Result<Vec<String>, ReconcileError>)
    ensures
        args_ok(views(values@)) ==> r is Ok && r->Ok_0@ == values@,
        !args_ok(views(values@)) ==> err_is(r, "`"@ + field@ + "` entries cannot contain NUL bytes"@),
{
    let mut i: usize = 0;
    while i < values.len()
        invariant
            0 <= i <= values.len(),
            forall|j: int| 0 <= j < i ==> !(#[trigger] views(values@)[j]).contains('\0'),
        decreases values.len() - i,
    {
        if contains_char(values[i].as_str(), '\0') {
            assert(views(values@)[i as int].contains('\0'));
            return Err(ReconcileError::ArgContainsNul { field: to_owned(field) });
        }
        i = i + 1;
    }
    Ok(values)
}

pub open spec fn has_key(acc: Seq<(Seq<char>, Seq<char>)>, k: Seq<char>) -> bool {
    exists|i: int| 0 <= i < acc.len() && #[trigger] acc[i].0 == k
}

/// `set_env`: keys trimmed, not blank, free of `=` and NUL, and distinct;
/// values free of NUL. The first offending pair, in order, is reported.
pub open spec fn set_env_result(pairs: Seq<(Seq<char>, Seq<char>)>) -> Result<
    Seq<(Seq<char>, Seq<char>)>,
    Seq<char>,
>
    decreases pairs.len(),
{
    if pairs.len() == 0 {
        Ok(Seq::empty())
    } else {
        match set_env_result(pairs.drop_last()) {
            Err(e) => Err(e),
            Ok(acc) => {
                let k = trim(pairs.last().0);
                let v = pairs.last().1;
                if k.len() == 0 {
                    Err("`set_env` cannot contain empty keys"@)
                } else if k.contains('=') {
                    Err("`set_env` keys cannot contain `=`: `"@ + k + "`"@)
                } else if k.contains('\0') {
                    Err("`set_env` keys cannot contain NUL bytes"@)
                } else if v.contains('\0') {
                    Err("`set_env` values cannot contain NUL bytes for key `"@ + k + "`"@)
                } else if has_key(acc, k) {
                    Err("`set_env` contains duplicate keys after trimming: `"@ + k + "`"@)
                } else {
                    Ok(acc.push((k, v)))
                }
            },
        }
    }
}

proof fn lemma_set_env_err_sticks(s: Seq<(Seq<char>, Seq<char>)>, k: int)
    requires
        0 <= k <= s.len(),
        set_env_result(s.take(k)) is Err,
    ensures
        set_env_result(s) == set_env_result(s.take(k)),
    decreases s.len() - k,
{
    if k < s.len() {
        assert(s.take(k + 1).drop_last() =~= s.take(k));
        lemma_set_env_err_sticks(s, k + 1);
    } else {
        assert(s.take(k) =~= s);
    }
}

fn normalize_set_env_pairs(pairs: &Vec<(String, String)>) -> (r: Result<StringMap, ReconcileError>)
    ensures
        ({
            let pv = pairs@.map_values(|p: (String, String)| pair_view(p));
            match set_env_result(pv) {
                Ok(acc) => r is Ok && r->Ok_0@ == pairs_map(acc),
                Err(msg) => err_is(r, msg),
            }
        }),
{
    let ghost pv = pairs@.map_values(|p: (String, String)| pair_view(p));
    let mut normalized = StringMap::new();
    let ghost mut acc: Seq<(Seq<char>, Seq<char>)> = Seq::empty();
    let mut i: usize = 0;
    assert(pv.take(0) =~= Seq::<(Seq<char>, Seq<char>)>::empty());
    while i < pairs.len()
        invariant
            0 <= i <= pairs.len(),
            pv == pairs@.map_values(|p: (String, String)| pair_view(p)),
            set_env_result(pv.take(i as int)) == Ok::<Seq<(Seq<char>, Seq<char>)>, Seq<char>>(acc),
            normalized@ == pairs_map(acc),
        decreases pairs.len() - i,
    {
        assert(pv.take(i + 1).drop_last() =~= pv.take(i as int));
        assert(pv.take(i + 1).last() == pair_view(pairs@[i as int]));
        let (key, value) = &pairs[i];
        let k = trim_str(key.as_str());
        if crate::text::chars_of(k.as_str()).len() == 0 {
            proof {
                lemma_set_env_err_sticks(pv, i + 1);
            }
            return Err(ReconcileError::SetEnvEmptyKey);
        }
        if contains_char(k.as_str(), '=') {
            proof {
                lemma_set_env_err_sticks(pv, i + 1);
            }
            return Err(ReconcileError::SetEnvKeyContainsEquals { key: k });
        }
        if contains_char(k.as_str(), '\0') {
            proof {
                lemma_set_env_err_sticks(pv, i + 1);
            }
            return Err(ReconcileError::SetEnvKeyContainsNul);
        }
        if contains_char(value.as_str(), '\0') {
            proof {
                lemma_set_env_err_sticks(pv, i + 1);
            }
            return Err(ReconcileError::SetEnvValueContainsNul { key: k });
        }
        proof {
            lemma_pairs_map_dom(acc, k@);
        }
        if normalized.contains_key(k.as_str()) {
            proof {
                lemma_set_env_err_sticks(pv, i + 1);
            }
            return Err(ReconcileError::SetEnvDuplicateKey { key: k });
        }
        let ghost kv = k@;
        normalized.insert(k, value.clone());
        proof {
            let old_acc = acc;
            acc = acc.push((kv, value@));
            assert(acc.drop_last() =~= old_acc);
        }
        i = i + 1;
    }
    assert(pv.take(pairs.len() as int) =~= pv);
    Ok(normalized)
}

/// Normalizes the `set_env` map of a patch (see [`set_env_result`]); its
/// pairs are taken in insertion order.
pub fn normalize_patch_set_env(values: &StringMap) -> (r: Result<StringMap, ReconcileError>)
    ensures
        match set_env_result(values.pairs()) {
            Ok(acc) => r is Ok && r->Ok_0@ == pairs_map(acc),
            Err(msg) => err_is(r, msg),
        },
{
    let pairs = values.to_pairs();
    normalize_set_env_pairs(&pairs)
}

/// `remove_env`: entries trimmed, blank ones dropped, duplicates dropped
/// (the first kept); none may hold `=` or NUL.
pub open spec fn remove_env_result(keys: Seq<Seq<char>>) -> Result<Seq<Seq<char>>, Seq<char>>
    decreases keys.len(),
{
    if keys.len() == 0 {
        Ok(Seq::empty())
    } else {
        match remove_env_result(keys.drop_last()) {
            Err(e) => Err(e),
            Ok(acc) => {
                let k = trim(keys.last());
                if k.len() == 0 {
                    Ok(acc)
                } else if k.contains('=') {
                    Err("`remove_env` entries cannot contain `=`: `"@ + k + "`"@)
                } else if k.contains('\0') {
                    Err("`remove_env` entries cannot contain NUL bytes"@)
                } else if acc.contains(k) {
                    Ok(acc)
                } else {
                    Ok(acc.push(k))
                }
            },
        }
    }
}

proof fn lemma_remove_env_err_sticks(s: Seq<Seq<char>>, k: int)
    requires
        0 <= k <= s.len(),
        remove_env_result(s.take(k)) is Err,
    ensures
        remove_env_result(s) == remove_env_result(s.take(k)),
    decreases s.len() - k,
{
    if k < s.len() {
        assert(s.take(k + 1).drop_last() =~= s.take(k));
        lemma_remove_env_err_sticks(s, k + 1);
    } else {
        assert(s.take(k) =~= s);
    }
}

pub fn normalize_patch_remove_env(values: Vec<String>) -> (r: Result<Vec<String>, ReconcileError>)
    ensures
        match remove_env_result(views(values@)) {
            Ok(acc) => r is Ok && views(r->Ok_0@) == acc,
            Err(msg) => err_is(r, msg),
        },
{
    let ghost kv = views(values@);
    let mut normalized: Vec<String> = Vec::new();
    let mut i: usize = 0;
    assert(kv.take(0) =~= Seq::<Seq<char>>::empty());
    assert(views(normalized@) =~= Seq::<Seq<char>>::empty());
    while i < values.len()
        invariant
            0 <= i <= values.len(),
            kv == views(values@),
            remove_env_result(kv.take(i as int)) == Ok::<Seq<Seq<char>>, Seq<char>>(
                views(normalized@),
            ),
        decreases values.len() - i,
    {
        assert(kv.take(i + 1).drop_last() =~= kv.take(i as int));
        assert(kv.take(i + 1).last() == values@[i as int]@);
        let k = trim_str(values[i].as_str());
        if crate::text::chars_of(k.as_str()).len() != 0 {
            if contains_char(k.as_str(), '=') {
                proof {
                    lemma_remove_env_err_sticks(kv, i + 1);
                }
                return Err(ReconcileError::RemoveEnvContainsEquals { key: k });
            }
            if contains_char(k.as_str(), '\0') {
                proof {
                    lemma_remove_env_err_sticks(kv, i + 1);
                }
                return Err(ReconcileError::RemoveEnvContainsNul);
            }
            if !crate::text::strings_contain(&normalized, k.as_str()) {
                let ghost before = views(normalized@);
                let ghost kk = k@;
                normalized.push(k);
                assert(views(normalized@) =~= before.push(kk));
            }
        }
        i = i + 1;
    }
    assert(kv.take(values.len() as int) =~= kv);
    Ok(normalized)
}

// ---------------------------------------------------------------------------
// Reading the patch
// ---------------------------------------------------------------------------

pub open spec fn supported_key(k: Seq<char>) -> bool {
    k == "append_args"@ || k == "replace_args"@ || k == "set_env"@ || k == "remove_env"@
}

pub open spec fn entry_keys(entries: Seq<(String, PatchValue)>) -> Seq<Seq<char>> {
    entries.map_values(|e: (String, PatchValue)| e.0@)
}

/// The first key, in order, that a patch may not have.
pub open spec fn first_unsupported(keys: Seq<Seq<char>>) -> Option<Seq<char>>
    decreases keys.len(),
{
    if keys.len() == 0 {
        None
    } else {
        match first_unsupported(keys.drop_last()) {
            Some(k) => Some(k),
            None => if supported_key(keys.last()) {
                None
            } else {
                Some(keys.last())
            },
        }
    }
}

/// The value stored under `key` (the first such entry).
pub open spec fn table_get(entries: Seq<(String, PatchValue)>, key: Seq<char>) -> Option<PatchValue>
    decreases entries.len(),
{
    if entries.len() == 0 {
        None
    } else {
        match table_get(entries.drop_last(), key) {
            Some(v) => Some(v),
            None => if entries.last().0@ == key {
                Some(entries.last().1)
            } else {
                None
            },
        }
    }
}

/// The strings of an array; the first other value refuses it.
pub open spec fn text_list(items: Seq<PatchValue>, field: Seq<char>) -> Result<Seq<Seq<char>>, Seq<char>>
    decreases items.len(),
{
    if items.len() == 0 {
        Ok(Seq::empty())
    } else {
        match text_list(items.drop_last(), field) {
            Err(e) => Err(e),
            Ok(prev) => match items.last() {
                PatchValue::Text(t) => Ok(prev.push(t@)),
                _ => Err("all values in `"@ + field + "` must be strings"@),
            },
        }
    }
}

/// The string pairs of an object map; the first other value refuses it.
pub open spec fn text_pairs(entries: Seq<(String, PatchValue)>, field: Seq<char>) -> Result<
    Seq<(Seq<char>, Seq<char>)>,
    Seq<char>,
>
    decreases entries.len(),
{
    if entries.len() == 0 {
        Ok(Seq::empty())
    } else {
        match text_pairs(entries.drop_last(), field) {
            Err(e) => Err(e),
            Ok(prev) => match entries.last().1 {
                PatchValue::Text(t) => Ok(prev.push((entries.last().0@, t@))),
                _ => Err("all values in `"@ + field + "` must be strings"@),
            },
        }
    }
}

pub open spec fn optional_array(entries: Seq<(String, PatchValue)>, key: Seq<char>) -> Result<
    Option<Seq<Seq<char>>>,
    Seq<char>,
> {
    match table_get(entries, key) {
        None => Ok(None),
        Some(PatchValue::List(items)) => match text_list(items@, key) {
            Ok(l) => Ok(Some(l)),
            Err(e) => Err(e),
        },
        Some(_) => Err("`"@ + key + "` must be an array"@),
    }
}

pub open spec fn optional_pairs(entries: Seq<(String, PatchValue)>, key: Seq<char>) -> Result<
    Option<Seq<(Seq<char>, Seq<char>)>>,
    Seq<char>,
> {
    match table_get(entries, key) {
        None => Ok(None),
        Some(PatchValue::Table(inner)) => match text_pairs(inner@, key) {
            Ok(l) => Ok(Some(l)),
            Err(e) => Err(e),
        },
        Some(_) => Err("`"@ + key + "` must be an object/map"@),
    }
}

pub open spec fn or_empty<T>(o: Option<Seq<T>>) -> Seq<T> {
    match o {
        Some(s) => s,
        None => Seq::empty(),
    }
}

/// A patch as character sequences: replaced arguments, appended arguments,
/// variables to set, variables to remove.
pub type PatchModel = (Option<Seq<Seq<char>>>, Seq<Seq<char>>, Seq<(Seq<char>, Seq<char>)>, Seq<Seq<char>>);

/// What a reconcile script's return value asks for, or why it is refused.
pub open spec fn patch_result(v: PatchValue) -> Result<PatchModel, Seq<char>> {
    match v {
        PatchValue::Table(entries) => {
            let e = entries@;
            match first_unsupported(entry_keys(e)) {
                Some(k) => Err(unsupported_key_message(k)),
                None => match optional_array(e, "replace_args"@) {
                    Err(m) => Err(m),
                    Ok(ra) => if ra is Some && !args_ok(ra->Some_0) {
                        Err("`"@ + "replace_args"@ + "` entries cannot contain NUL bytes"@)
                    } else {
                        match optional_array(e, "append_args"@) {
                            Err(m) => Err(m),
                            Ok(aa) => if !args_ok(or_empty(aa)) {
                                Err("`"@ + "append_args"@ + "` entries cannot contain NUL bytes"@)
                            } else {
                                match optional_pairs(e, "set_env"@) {
                                    Err(m) => Err(m),
                                    Ok(se0) => match set_env_result(or_empty(se0)) {
                                        Err(m) => Err(m),
                                        Ok(se) => match optional_array(e, "remove_env"@) {
                                            Err(m) => Err(m),
                                            Ok(re0) => match remove_env_result(or_empty(re0)) {
                                                Err(m) => Err(m),
                                                Ok(re) => Ok((ra, or_empty(aa), se, re)),
                                            },
                                        },
                                    },
                                }
                            },
                        }
                    },
                },
            }
        },
        _ => Err("reconcile function must return an object/map"@),
    }
}

fn validate_patch_keys(entries: &Vec<(String, PatchValue)>) -> (r: Result<(), ReconcileError>)
    ensures
        match first_unsupported(entry_keys(entries@)) {
            None => r is Ok,
            Some(k) => err_is(r, unsupported_key_message(k)),
        },
{
    let ghost keys = entry_keys(entries@);
    let mut i: usize = 0;
    assert(keys.take(0) =~= Seq::<Seq<char>>::empty());
    while i < entries.len()
        invariant
            0 <= i <= entries.len(),
            keys == entry_keys(entries@),
            first_unsupported(keys.take(i as int)) is None,
        decreases entries.len() - i,
    {
        assert(keys.take(i + 1).drop_last() =~= keys.take(i as int));
        let k = entries[i].0.as_str();
        assert(keys.take(i + 1).last() == k@);
        if !(str_eq(k, "append_args") || str_eq(k, "replace_args") || str_eq(k, "set_env")
            || str_eq(k, "remove_env")) {
            proof {
                lemma_first_unsupported_sticks(keys, i + 1);
            }
            return Err(ReconcileError::UnsupportedKey { key: to_owned(k) });
        }
        i = i + 1;
    }
    assert(keys.take(entries.len() as int) =~= keys);
    Ok(())
}

proof fn lemma_first_unsupported_sticks(s: Seq<Seq<char>>, k: int)
    requires
        0 <= k <= s.len(),
        first_unsupported(s.take(k)) is Some,
    ensures
        first_unsupported(s) == first_unsupported(s.take(k)),
    decreases s.len() - k,
{
    if k < s.len() {
        assert(s.take(k + 1).drop_last() =~= s.take(k));
        lemma_first_unsupported_sticks(s, k + 1);
    } else {
        assert(s.take(k) =~= s);
    }
}

proof fn lemma_table_get_sticks(s: Seq<(String, PatchValue)>, key: Seq<char>, k: int)
    requires
        0 <= k <= s.len(),
        table_get(s.take(k), key) is Some,
    ensures
        table_get(s, key) == table_get(s.take(k), key),
    decreases s.len() - k,
{
    if k < s.len() {
        assert(s.take(k + 1).drop_last() =~= s.take(k));
        lemma_table_get_sticks(s, key, k + 1);
    } else {
        assert(s.take(k) =~= s);
    }
}

/// The entry stored under `key`, if any.
fn table_lookup<'a>(entries: &'a Vec<(String, PatchValue)>, key: &str) -> (r: Option<&'a PatchValue>)
    ensures
        match table_get(entries@, key@) {
            None => r is None,
            Some(v) => r is Some && *r->Some_0 == v,
        },
{
    let ghost s = entries@;
    let mut i: usize = 0;
    assert(s.take(0) =~= Seq::<(String, PatchValue)>::empty());
    while i < entries.len()
        invariant
            0 <= i <= entries.len(),
            s == entries@,
            table_get(s.take(i as int), key@) is None,
        decreases entries.len() - i,
    {
        assert(s.take(i + 1).drop_last() =~= s.take(i as int));
        assert(s.take(i + 1).last() == entries@[i as int]);
        if str_eq(entries[i].0.as_str(), key) {
            proof {
                lemma_table_get_sticks(s, key@, i + 1);
            }
            return Some(&entries[i].1);
        }
        i = i + 1;
    }
    assert(s.take(entries.len() as int) =~= s);
    None
}

proof fn lemma_text_list_sticks(s: Seq<PatchValue>, f: Seq<char>, k: int)
    requires
        0 <= k <= s.len(),
        text_list(s.take(k), f) is Err,
    ensures
        text_list(s, f) == text_list(s.take(k), f),
    decreases s.len() - k,
{
    if k < s.len() {
        assert(s.take(k + 1).drop_last() =~= s.take(k));
        lemma_text_list_sticks(s, f, k + 1);
    } else {
        assert(s.take(k) =~= s);
    }
}

proof fn lemma_text_pairs_sticks(s: Seq<(String, PatchValue)>, f: Seq<char>, k: int)
    requires
        0 <= k <= s.len(),
        text_pairs(s.take(k), f) is Err,
    ensures
        text_pairs(s, f) == text_pairs(s.take(k), f),
    decreases s.len() - k,
{
    if k < s.len() {
        assert(s.take(k + 1).drop_last() =~= s.take(k));
        lemma_text_pairs_sticks(s, f, k + 1);
    } else {
        assert(s.take(k) =~= s);
    }
}

fn strings_of_list(items: &Vec<PatchValue>, field: &str) -> (r: Result<Vec<String>, ReconcileError>)
    ensures
        match text_list(items@, field@) {
            Ok(l) => r is Ok && views(r->Ok_0@) == l,
            Err(m) => err_is(r, m),
        },
{
    let ghost s = items@;
    let mut out: Vec<String> = Vec::new();
    let mut i: usize = 0;
    assert(s.take(0) =~= Seq::<PatchValue>::empty());
    assert(views(out@) =~= Seq::<Seq<char>>::empty());
    while i < items.len()
        invariant
            0 <= i <= items.len(),
            s == items@,
            text_list(s.take(i as int), field@) == Ok::<Seq<Seq<char>>, Seq<char>>(views(out@)),
        decreases items.len() - i,
    {
        assert(s.take(i + 1).drop_last() =~= s.take(i as int));
        assert(s.take(i + 1).last() == items@[i as int]);
        match &items[i] {
            PatchValue::Text(t) => {
                let ghost before = views(out@);
                out.push(t.clone());
                assert(views(out@) =~= before.push(t@));
            },
            _ => {
                proof {
                    lemma_text_list_sticks(s, field@, i + 1);
                }
                return Err(ReconcileError::NotAString { field: to_owned(field) });
            },
        }
        i = i + 1;
    }
    assert(s.take(items.len() as int) =~= s);
    Ok(out)
}

fn pairs_of_table(entries: &Vec<(String, PatchValue)>, field: &str) -> (r: Result<
    Vec<(String, String)>,
    ReconcileError,
>)
    ensures
        match text_pairs(entries@, field@) {
            Ok(l) => r is Ok && r->Ok_0@.map_values(|p: (String, String)| pair_view(p)) == l,
            Err(m) => err_is(r, m),
        },
{
    let ghost s = entries@;
    let mut out: Vec<(String, String)> = Vec::new();
    let mut i: usize = 0;
    assert(s.take(0) =~= Seq::<(String, PatchValue)>::empty());
    assert(out@.map_values(|p: (String, String)| pair_view(p)) =~= Seq::<(Seq<char>, Seq<char>)>::empty());
    while i < entries.len()
        invariant
            0 <= i <= entries.len(),
            s == entries@,
            text_pairs(s.take(i as int), field@) == Ok::<Seq<(Seq<char>, Seq<char>)>, Seq<char>>(
                out@.map_values(|p: (String, String)| pair_view(p)),
            ),
        decreases entries.len() - i,
    {
        assert(s.take(i + 1).drop_last() =~= s.take(i as int));
        assert(s.take(i + 1).last() == entries@[i as int]);
        match &entries[i].1 {
            PatchValue::Text(t) => {
                let ghost before = out@.map_values(|p: (String, String)| pair_view(p));
                let ghost kv = entries[i as int].0@;
                out.push((entries[i].0.clone(), t.clone()));
                assert(out@.map_values(|p: (String, String)| pair_view(p)) =~= before.push((kv, t@)));
            },
            _ => {
                proof {
                    lemma_text_pairs_sticks(s, field@, i + 1);
                }
                return Err(ReconcileError::NotAString { field: to_owned(field) });
            },
        }
        i = i + 1;
    }
    assert(s.take(entries.len() as int) =~= s);
    Ok(out)
}

fn optional_string_array(entries: &Vec<(String, PatchValue)>, key: &str) -> (r: Result<
    Option<Vec<String>>,
    ReconcileError,
>)
    ensures
        match optional_array(entries@, key@) {
            Ok(None) => r is Ok && r->Ok_0 is None,
            Ok(Some(l)) => r is Ok && r->Ok_0 is Some && views(r->Ok_0->Some_0@) == l,
            Err(m) => err_is(r, m),
        },
{
    match table_lookup(entries, key) {
        None => Ok(None),
        Some(PatchValue::List(items)) => {
            let l = strings_of_list(items, key)?;
            Ok(Some(l))
        },
        Some(_) => Err(ReconcileError::NotAnArray { key: to_owned(key) }),
    }
}

fn optional_string_pairs(entries: &Vec<(String, PatchValue)>, key: &str) -> (r: Result<
    Option<Vec<(String, String)>>,
    ReconcileError,
>)
    ensures
        match optional_pairs(entries@, key@) {
            Ok(None) => r is Ok && r->Ok_0 is None,
            Ok(Some(l)) => r is Ok && r->Ok_0 is Some && r->Ok_0->Some_0@.map_values(
                |p: (String, String)| pair_view(p),
            ) == l,
            Err(m) => err_is(r, m),
        },
{
    match table_lookup(entries, key) {
        None => Ok(None),
        Some(PatchValue::Table(inner)) => {
            let l = pairs_of_table(inner, key)?;
            Ok(Some(l))
        },
        Some(_) => Err(ReconcileError::NotAnObject { key: to_owned(key) }),
    }
}

/// Reads the patch a reconcile script returned: an object map with only
/// `append_args`, `replace_args`, `set_env` and `remove_env`, each field
/// normalized; the first problem found refuses the whole patch.
pub fn parse_patch(value: PatchValue) -> (r: Result<RuntimePatch, ReconcileError>)
    ensures
        match patch_result(value) {
            Ok((ra, aa, se, re)) => r is Ok && (match r->Ok_0.replace_args {
                Some(v) => ra == Some(views(v@)),
                None => ra is None,
            }) && views(r->Ok_0.append_args@) == aa && r->Ok_0.set_env@ == pairs_map(se)
                && views(r->Ok_0.remove_env@) == re,
            Err(m) => err_is(r, m),
        },
{
    let entries = match value {
        PatchValue::Table(entries) => entries,
        _ => {
            return Err(ReconcileError::NotAMap);
        },
    };
    validate_patch_keys(&entries)?;
    let replace_args = match optional_string_array(&entries, "replace_args")? {
        Some(values) => Some(normalize_patch_args(values, "replace_args")?),
        None => None,
    };
    let append_values = match optional_string_array(&entries, "append_args")? {
        Some(values) => values,
        None => Vec::new(),
    };
    assert(views(append_values@) == or_empty(optional_array(entries@, "append_args"@)->Ok_0));
    let append_args = normalize_patch_args(append_values, "append_args")?;
    let set_pairs = match optional_string_pairs(&entries, "set_env")? {
        Some(p) => p,
        None => Vec::new(),
    };
    assert(set_pairs@.map_values(|p: (String, String)| pair_view(p)) == or_empty(
        optional_pairs(entries@, "set_env"@)->Ok_0,
    ));
    let set_env = normalize_set_env_pairs(&set_pairs)?;
    let remove_values = match optional_string_array(&entries, "remove_env")? {
        Some(values) => values,
        None => Vec::new(),
    };
    assert(views(remove_values@) == or_empty(optional_array(entries@, "remove_env"@)->Ok_0));
    let remove_env = normalize_patch_remove_env(remove_values)?;
    Ok(RuntimePatch { replace_args, append_args, set_env, remove_env })
}

/// Normalized `remove_env` entries are trimmed, not blank, free of `=` and
/// NUL, and each occurs once.
pub proof fn lemma_remove_env_normalized(keys: Seq<Seq<char>>)
    requires
        remove_env_result(keys) is Ok,
    ensures
        ({
            let acc = remove_env_result(keys)->Ok_0;
            &&& forall|i: int| 0 <= i < acc.len() ==> (#[trigger] acc[i]).len() > 0
                && !acc[i].contains('=') && !acc[i].contains('\0')
                && exists|j: int| 0 <= j < keys.len() && trim(#[trigger] keys[j]) == acc[i]
            &&& forall|i: int, j: int| 0 <= i < j < acc.len() ==> acc[i] != acc[j]
        }),
    decreases keys.len(),
{
    if keys.len() > 0 {
        let prev = keys.drop_last();
        lemma_remove_env_normalized(prev);
        let acc0 = remove_env_result(prev)->Ok_0;
        assert forall|i: int| 0 <= i < acc0.len() implies exists|j: int|
            0 <= j < keys.len() && trim(#[trigger] keys[j]) == #[trigger] acc0[i] by {
            let j = choose|j: int| 0 <= j < prev.len() && trim(#[trigger] prev[j]) == acc0[i];
            assert(keys[j] == prev[j]);
        }
        assert(trim(keys[keys.len() - 1]) == trim(keys.last()));
    }
}

/// Normalized `set_env` keys are trimmed, not blank, free of `=` and NUL,
/// and each occurs once.
pub proof fn lemma_set_env_normalized(pairs: Seq<(Seq<char>, Seq<char>)>)
    requires
        set_env_result(pairs) is Ok,
    ensures
        ({
            let acc = set_env_result(pairs)->Ok_0;
            &&& forall|i: int| 0 <= i < acc.len() ==> (#[trigger] acc[i]).0.len() > 0
                && !acc[i].0.contains('=') && !acc[i].0.contains('\0') && !acc[i].1.contains('\0')
            &&& forall|i: int, j: int| 0 <= i < j < acc.len() ==> acc[i].0 != acc[j].0
        }),
    decreases pairs.len(),
{
    if pairs.len() > 0 {
        lemma_set_env_normalized(pairs.drop_last());
        let acc0 = set_env_result(pairs.drop_last())->Ok_0;
        let k = trim(pairs.last().0);
        assert forall|i: int| 0 <= i < acc0.len() implies acc0[i].0 != k by {
            if acc0[i].0 == k {
                assert(has_key(acc0, k));
            }
        }
    }
}

} // verus!
