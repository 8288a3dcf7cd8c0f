//! Argument checks shared by the functions scripts can call: no NUL, not
//! blank, sane timeouts, and lists or maps that hold only strings.
use crate::env_map::StringMap;
use crate::text::{concat2, concat3, contains_char, trim, trim_str, views};
use vstd::prelude::*;

verus! {

/// A value a script handed back, as far as the library looks at it.
#[derive(Debug, Clone, PartialEq, Eq)]
pub enum ScriptValue {
    /// A string.
    Text(String),
    /// Anything that is not a string.
    Other,
}

/// Why a script-facing function refused its arguments.
#[derive(Debug, Clone, PartialEq, Eq)]
pub struct FacadeError {
    pub message: String,
}

pub open spec fn nul_message(field: Seq<char>) -> Seq<char> {
    field + " cannot contain NUL bytes"@
}

pub open spec fn blank_message(field: Seq<char>) -> Seq<char> {
    field + " cannot be blank"@
}

pub open spec fn err_view<T>(r: Result<T, FacadeError>) -> Result<T, Seq<char>> {
    match r {
        Ok(v) => Ok(v),
        Err(e) => Err(e.message@),
    }
}

pub open spec fn string_err_view(r: Result<String, FacadeError>) -> Result<Seq<char>, Seq<char>> {
    match r {
        Ok(v) => Ok(v@),
        Err(e) => Err(e.message@),
    }
}

/// Refuses a value holding a NUL character.
pub fn ensure_no_nul(field: &str, value: &str) -> (r: Result<(), FacadeError>)
    ensures
        r is Ok <==> !value@.contains('\0'),
        r matches Err(e) ==> e.message@ == nul_message(field@),
{
    if contains_char(value, '\0') {
        return Err(FacadeError { message: concat2(field, " cannot contain NUL bytes") });
    }
    Ok(())
}

/// A value without NUL whose trimmed form is not empty, trimmed.
pub open spec fn not_blank_result(field: Seq<char>, value: Seq<char>) -> Result<Seq<char>, Seq<char>> {
    if value.contains('\0') {
        Err(nul_message(field))
    } else if trim(value).len() == 0 {
        Err(blank_message(field))
    } else {
        Ok(trim(value))
    }
}

pub fn ensure_not_blank(field: &str, value: &str) -> (r: Result<String, FacadeError>)
    ensures
        string_err_view(r) == not_blank_result(field@, value@),
{
    ensure_no_nul(field, value)?;
    if crate::text::str_is_blank(value) {
        return Err(FacadeError { message: concat2(field, " cannot be blank") });
    }
    Ok(trim_str(value))
}

/// A path argument: the same rules as [`ensure_not_blank`].
pub fn ensure_path(field: &str, value: &str) -> (r: Result<String, FacadeError>)
    ensures
        string_err_view(r) == not_blank_result(field@, value@),
{
    ensure_not_blank(field, value)
}

/// A timeout in milliseconds: negative is refused, zero means none.
pub fn normalize_timeout_ms(timeout_ms: i64) -> (r: Result<Option<u64>, FacadeError>)
    ensures
        timeout_ms < 0 <==> r is Err,
        r matches Err(e) ==> e.message@ == "timeout_ms cannot be negative"@,
        timeout_ms == 0 ==> r == Ok::<Option<u64>, FacadeError>(None),
        timeout_ms > 0 ==> r == Ok::<Option<u64>, FacadeError>(Some(timeout_ms as u64)),
{
    if timeout_ms < 0 {
        return Err(FacadeError { message: crate::text::to_owned("timeout_ms cannot be negative") });
    }
    if timeout_ms == 0 {
        return Ok(None);
    }
    Ok(Some(timeout_ms as u64))
}

/// The text of one script value: a string without NUL, else the error.
pub open spec fn value_text(field: Seq<char>, v: ScriptValue, what: Seq<char>) -> Result<
    Seq<char>,
    Seq<char>,
> {
    match v {
        ScriptValue::Text(s) => if s@.contains('\0') {
            Err(nul_message(field))
        } else {
            Ok(s@)
        },
        ScriptValue::Other => Err("all "@ + field + " "@ + what + " must be strings"@),
    }
}

/// The strings of a script list, or the error of its first bad entry.
pub open spec fn strings_result(field: Seq<char>, values: Seq<ScriptValue>) -> Result<
    Seq<Seq<char>>,
    Seq<char>,
>
    decreases values.len(),
{
    if values.len() == 0 {
        Ok(Seq::empty())
    } else {
        match strings_result(field, values.drop_last()) {
            Err(e) => Err(e),
            Ok(prev) => match value_text(field, values.last(), "entries"@) {
                Ok(t) => Ok(prev.push(t)),
                Err(e) => Err(e),
            },
        }
    }
}

proof fn lemma_strings_err_sticks(field: Seq<char>, s: Seq<ScriptValue>, k: int)
    requires
        0 <= k <= s.len(),
        strings_result(field, s.take(k)) is Err,
    ensures
        strings_result(field, s) == strings_result(field, s.take(k)),
    decreases s.len() - k,
{
    if k == s.len() {
        assert(s.take(k) =~= s);
    } else {
        assert(s.drop_last().take(k) =~= s.take(k));
        lemma_strings_err_sticks(field, s.drop_last(), k);
    }
}

fn value_to_text(field: &str, v: &ScriptValue, what: &str) -> (r: Result<String, FacadeError>)
    ensures
        string_err_view(r) == value_text(field@, *v, what@),
{
    match v {
        ScriptValue::Text(s) => {
            ensure_no_nul(field, s.as_str())?;
            Ok(s.clone())
        },
        ScriptValue::Other => {
            let mut m = concat3("all ", field, " ");
            m.append(what);
            m.append(" must be strings");
            Err(FacadeError { message: m })
        },
    }
}

/// The strings of a script list; fails on the first entry that is not a
/// string or holds NUL.
pub fn array_to_strings(field: &str, values: &Vec<ScriptValue>) -> (r: Result<
    Vec<String>,
    FacadeError,
>)
    ensures
        match (r, strings_result(field@, values@)) {
            (Ok(out), Ok(expected)) => views(out@) == expected,
            (Err(e), Err(msg)) => e.message@ == msg,
            _ => false,
        },
{
    let mut out: Vec<String> = Vec::new();
    let mut i: usize = 0;
    assert(values@.take(0) =~= Seq::<ScriptValue>::empty());
    assert(views(out@) =~= Seq::<Seq<char>>::empty());
    while i < values.len()
        invariant
            0 <= i <= values.len(),
            strings_result(field@, values@.take(i as int)) == Ok::<Seq<Seq<char>>, Seq<char>>(
                views(out@),
            ),
        decreases values.len() - i,
    {
        assert(values@.take(i + 1).drop_last() =~= values@.take(i as int));
        assert(values@.take(i + 1).last() == values@[i as int]);
        match value_to_text(field, &values[i], "entries") {
            Ok(t) => {
                let ghost prev = views(out@);
                let ghost tv = t@;
                out.push(t);
                assert(views(out@) =~= prev.push(tv));
            },
            Err(e) => {
                proof {
                    lemma_strings_err_sticks(field@, values@, i + 1);
                }
                return Err(e);
            },
        }
        i = i + 1;
    }
    assert(values@.take(values.len() as int) =~= values@);
    Ok(out)
}

/// A script map's entries as strings: keys trimmed and not blank, values
/// strings without NUL; a later key replaces an earlier equal one.
pub open spec fn map_result(field: Seq<char>, entries: Seq<(Seq<char>, ScriptValue)>) -> Result<
    Map<Seq<char>, Seq<char>>,
    Seq<char>,
>
    decreases entries.len(),
{
    if entries.len() == 0 {
        Ok(Map::empty())
    } else {
        match map_result(field, entries.drop_last()) {
            Err(e) => Err(e),
            Ok(prev) => match not_blank_result(field + " key"@, entries.last().0) {
                Err(e) => Err(e),
                Ok(k) => match value_text(field, entries.last().1, "values"@) {
                    Err(e) => Err(e),
                    Ok(v) => Ok(prev.insert(k, v)),
                },
            },
        }
    }
}

/// Every key of a converted script map is trimmed, not blank and free of
/// NUL.
pub proof fn lemma_map_keys_clean(field: Seq<char>, entries: Seq<(Seq<char>, ScriptValue)>)
    ensures
        map_result(field, entries) matches Ok(m) ==> forall|k: Seq<char>|
            #[trigger] m.contains_key(k) ==> k.len() > 0 && trim(k) == k && !k.contains('\0'),
    decreases entries.len(),
{
    if entries.len() > 0 {
        lemma_map_keys_clean(field, entries.drop_last());
        let raw = entries.last().0;
        crate::text::lemma_trim_idempotent(raw);
        if !raw.contains('\0') && trim(raw).len() > 0 {
            lemma_trim_keeps_chars(raw);
        }
    }
}

proof fn lemma_trim_start_keeps_out(s: Seq<char>, c: char)
    requires
        !s.contains(c),
    ensures
        !crate::text::trim_start(s).contains(c),
    decreases s.len(),
{
    if s.len() > 0 && crate::text::is_ws(s[0]) {
        assert forall|i: int| 0 <= i < s.drop_first().len() implies s.drop_first()[i] != c by {
            assert(s.drop_first()[i] == s[i + 1]);
        }
        lemma_trim_start_keeps_out(s.drop_first(), c);
    }
}

proof fn lemma_trim_end_keeps_out(s: Seq<char>, c: char)
    requires
        !s.contains(c),
    ensures
        !crate::text::trim_end(s).contains(c),
    decreases s.len(),
{
    if s.len() > 0 && crate::text::is_ws(s.last()) {
        assert forall|i: int| 0 <= i < s.drop_last().len() implies s.drop_last()[i] != c by {
            assert(s.drop_last()[i] == s[i]);
        }
        lemma_trim_end_keeps_out(s.drop_last(), c);
    }
}

/// Trimming only removes characters.
proof fn lemma_trim_keeps_chars(s: Seq<char>)
    requires
        !s.contains('\0'),
    ensures
        !trim(s).contains('\0'),
{
    lemma_trim_start_keeps_out(s, '\0');
    lemma_trim_end_keeps_out(crate::text::trim_start(s), '\0');
}

pub open spec fn entry_view(e: (String, ScriptValue)) -> (Seq<char>, ScriptValue) {
    (e.0@, e.1)
}

proof fn lemma_map_err_sticks(field: Seq<char>, s: Seq<(Seq<char>, ScriptValue)>, k: int)
    requires
        0 <= k <= s.len(),
        map_result(field, s.take(k)) is Err,
    ensures
        map_result(field, s) == map_result(field, s.take(k)),
    decreases s.len() - k,
{
    if k == s.len() {
        assert(s.take(k) =~= s);
    } else {
        assert(s.drop_last().take(k) =~= s.take(k));
        lemma_map_err_sticks(field, s.drop_last(), k);
    }
}

/// The entries of a script map as a string map.
pub fn map_to_strings(field: &str, entries: &Vec<(String, ScriptValue)>) -> (r: Result<
    StringMap,
    FacadeError,
>)
    ensures
        match (r, map_result(field@, entries@.map_values(|e: (String, ScriptValue)| entry_view(e)))) {
            (Ok(out), Ok(expected)) => out@ == expected,
            (Err(e), Err(msg)) => e.message@ == msg,
            _ => false,
        },
{
    let ghost s = entries@.map_values(|e: (String, ScriptValue)| entry_view(e));
    let key_field = concat2(field, " key");
    let mut out = StringMap::new();
    let mut i: usize = 0;
    assert(s.take(0) =~= Seq::<(Seq<char>, ScriptValue)>::empty());
    while i < entries.len()
        invariant
            0 <= i <= entries.len(),
            s == entries@.map_values(|e: (String, ScriptValue)| entry_view(e)),
            key_field@ == field@ + " key"@,
            map_result(field@, s.take(i as int)) == Ok::<Map<Seq<char>, Seq<char>>, Seq<char>>(
                out@,
            ),
        decreases entries.len() - i,
    {
        assert(s.take(i + 1).drop_last() =~= s.take(i as int));
        assert(s.take(i + 1).last() == entry_view(entries@[i as int]));
        let key = match ensure_not_blank(key_field.as_str(), entries[i].0.as_str()) {
            Ok(k) => k,
            Err(e) => {
                proof {
                    lemma_map_err_sticks(field@, s, i + 1);
                }
                return Err(e);
            },
        };
        let value = match value_to_text(field, &entries[i].1, "values") {
            Ok(v) => v,
            Err(e) => {
                proof {
                    lemma_map_err_sticks(field@, s, i + 1);
                }
                return Err(e);
            },
        };
        out.insert(key, value);
        i = i + 1;
    }
    assert(s.take(entries.len() as int) =~= s);
    Ok(out)
}

} // verus!
