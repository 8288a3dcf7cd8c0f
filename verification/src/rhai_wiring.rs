//! Rhai scripts as the alias editor sees them: which `fn <name>(ctx)`
//! methods a script declares, how a method is renamed or added, and which
//! method a configuration should name after the script was edited. Reading
//! and writing the script files stays with the caller.
use crate::sorted_strings::{strictly_sorted, SortedStrings};
use crate::text::{
    chars_of, concat3, index_of, is_ascii_alphanumeric, is_ascii_lower, is_ascii_upper,
    join_with, split_on, split_str, starts_with, str_eq, string_from_range, to_owned, trim,
    trim_start, trim_str, views,
};
use vstd::prelude::*;

verus! {

#[derive(Debug, Clone, Copy, PartialEq, Eq)]
pub enum RhaiMethodKind {
    Reconcile,
    Bashcomp,
}

pub open spec fn is_ident_char(c: char) -> bool {
    c == '_' || is_ascii_alphanumeric(c)
}

/// A method name: a letter or `_`, then letters, digits or `_`.
pub open spec fn valid_ident(s: Seq<char>) -> bool {
    &&& s.len() > 0
    &&& (s[0] == '_' || is_ascii_upper(s[0]) || is_ascii_lower(s[0]))
    &&& forall|i: int| 0 <= i < s.len() ==> is_ident_char(#[trigger] s[i])
}

pub fn is_ident_continue(ch: char) -> (r: bool)
    ensures
        r == is_ident_char(ch),
{
    ch == '_' || ('A' <= ch && ch <= 'Z') || ('a' <= ch && ch <= 'z') || ('0' <= ch && ch <= '9')
}

pub fn is_valid_method_identifier(value: &str) -> (r: bool)
    ensures
        r == valid_ident(value@),
{
    let v = chars_of(value);
    if v.len() == 0 {
        return false;
    }
    let first = v[0];
    if !(first == '_' || ('A' <= first && first <= 'Z') || ('a' <= first && first <= 'z')) {
        return false;
    }
    let mut i: usize = 0;
    while i < v.len()
        invariant
            0 <= i <= v.len(),
            v@ == value@,
            forall|j: int| 0 <= j < i ==> is_ident_char(#[trigger] v@[j]),
        decreases v.len() - i,
    {
        if !is_ident_continue(v[i]) {
            return false;
        }
        i = i + 1;
    }
    true
}

/// How many identifier characters `s` starts with.
pub open spec fn ident_len(s: Seq<char>) -> nat
    decreases s.len(),
{
    if s.len() > 0 && is_ident_char(s[0]) {
        1 + ident_len(s.drop_first())
    } else {
        0
    }
}

proof fn lemma_ident_len(s: Seq<char>, k: int)
    requires
        0 <= k <= s.len(),
        forall|j: int| 0 <= j < k ==> is_ident_char(#[trigger] s[j]),
        k < s.len() ==> !is_ident_char(s[k]),
    ensures
        ident_len(s) == k,
    decreases k,
{
    if k > 0 {
        assert forall|j: int| 0 <= j < k - 1 implies is_ident_char(#[trigger] s.drop_first()[j]) by {
            assert(s.drop_first()[j] == s[j + 1]);
        }
        lemma_ident_len(s.drop_first(), k - 1);
    }
}

/// The method a script line declares with the signature `fn <name>(ctx)`.
pub open spec fn decl_name(line: Seq<char>) -> Option<Seq<char>> {
    let t = trim_start(line);
    if !starts_with(t, "fn "@) {
        None
    } else {
        let rest = t.subrange(3, t.len() as int);
        let n = ident_len(rest) as int;
        if n == 0 || !valid_ident(rest.take(n)) {
            None
        } else {
            let after = trim_start(rest.subrange(n, rest.len() as int));
            if !(after.len() > 0 && after[0] == '(') {
                None
            } else {
                let close = index_of(after, ')');
                if close < 0 {
                    None
                } else if trim(after.subrange(1, close)) == "ctx"@ {
                    Some(rest.take(n))
                } else {
                    None
                }
            }
        }
    }
}

/// Where `trim_start` would begin in `v`.
fn start_of_text(v: &Vec<char>, from: usize) -> (r: usize)
    requires
        from <= v.len(),
    ensures
        from <= r <= v.len(),
        v@.subrange(r as int, v@.len() as int) == trim_start(v@.subrange(from as int, v@.len() as int)),
{
    let mut i = from;
    while i < v.len() && crate::text::char_is_ws(v[i])
        invariant
            from <= i <= v.len(),
            trim_start(v@.subrange(from as int, v@.len() as int)) == trim_start(v@.subrange(i as int, v@.len() as int)),
        decreases v.len() - i,
    {
        proof {
            crate::text::lemma_trim_start_skip(v@, i as int);
        }
        i = i + 1;
    }
    proof {
        let t = v@.subrange(i as int, v@.len() as int);
        if t.len() > 0 {
            assert(t[0] == v@[i as int]);
        }
    }
    i
}

/// The method declared by `line`, if it declares one taking `ctx`.
pub fn parse_method_decl_line(line: &str) -> (r: Option<String>)
    ensures
        crate::journal_validation::opt_string_view(r) == decl_name(line@),
{
    let v = chars_of(line);
    assert(v@.subrange(0, v@.len() as int) =~= v@);
    let s = start_of_text(&v, 0);
    let ghost t = v@.subrange(s as int, v@.len() as int);
    if !(v.len() - s >= 3 && v[s] == 'f' && v[s + 1] == 'n' && v[s + 2] == ' ') {
        proof {
            reveal_strlit("fn ");
            if starts_with(t, "fn "@) {
                assert(t.subrange(0, 3)[0] == 'f');
                assert(t.subrange(0, 3)[1] == 'n');
                assert(t.subrange(0, 3)[2] == ' ');
            }
        }
        return None;
    }
    proof {
        reveal_strlit("fn ");
        assert(t.subrange(0, 3) =~= "fn "@);
    }
    let start = s + 3;
    let ghost rest = t.subrange(3, t.len() as int);
    assert(rest =~= v@.subrange(start as int, v@.len() as int));
    let mut e = start;
    while e < v.len() && is_ident_continue(v[e])
        invariant
            start <= e <= v.len(),
            rest == v@.subrange(start as int, v@.len() as int),
            forall|j: int| start <= j < e ==> is_ident_char(#[trigger] v@[j]),
        decreases v.len() - e,
    {
        e = e + 1;
    }
    proof {
        assert forall|j: int| 0 <= j < e - start implies is_ident_char(#[trigger] rest[j]) by {
            assert(rest[j] == v@[start + j]);
        }
        if e < v.len() {
            assert(rest[e - start] == v@[e as int]);
        }
        lemma_ident_len(rest, e - start);
    }
    if e == start {
        return None;
    }
    let name = string_from_range(&v, start, e);
    assert(name@ =~= rest.take(e - start));
    if !is_valid_method_identifier(name.as_str()) {
        return None;
    }
    let a = start_of_text(&v, e);
    let ghost after = v@.subrange(a as int, v@.len() as int);
    assert(rest.subrange(e - start, rest.len() as int) =~= v@.subrange(e as int, v@.len() as int));
    if !(a < v.len() && v[a] == '(') {
        return None;
    }
    let after_vec = crate::text::vec_slice(&v, a, v.len());
    assert(after_vec@ == after);
    let close = match crate::text::vec_index_of(&after_vec, ')') {
        Some(c) => c,
        None => {
            return None;
        },
    };
    assert(close >= 1);
    let args = string_from_range(&after_vec, 1, close);
    let targs = trim_str(args.as_str());
    if str_eq(targs.as_str(), "ctx") {
        Some(name)
    } else {
        None
    }
}

/// `\r` dropped from the end of a line that ended in `\r\n`.
pub open spec fn strip_cr(p: Seq<char>) -> Seq<char> {
    if p.len() > 0 && p.last() == '\r' {
        p.drop_last()
    } else {
        p
    }
}

/// The lines of a text (`str::lines`): split at `\n`, a `\r` before the
/// `\n` dropped, no empty line after a final `\n`.
pub open spec fn text_lines(s: Seq<char>) -> Seq<Seq<char>> {
    let p = split_on(s, '\n');
    let n = p.len() as int;
    let body = Seq::new((n - 1) as nat, |i: int| strip_cr(p[i]));
    if p[n - 1].len() > 0 {
        body.push(p[n - 1])
    } else {
        body
    }
}

/// The methods with the signature `fn <name>(ctx)` that a script declares.
pub open spec fn method_names(source: Seq<char>) -> Set<Seq<char>> {
    Set::new(
        |name: Seq<char>|
            exists|i: int| 0 <= i < text_lines(source).len() && #[trigger] decl_name(text_lines(source)[i]) == Some(name),
    )
}

/// The lines of `source`.
pub fn source_lines(source: &str) -> (r: Vec<String>)
    ensures
        views(r@) == text_lines(source@),
{
    let parts = split_str(source, '\n');
    proof {
        crate::text::lemma_split_nonempty(source@, '\n', '\n');
    }
    let ghost p = split_on(source@, '\n');
    assert(parts@.map_values(|q: String| q@) == p);
    let n = parts.len();
    let mut out: Vec<String> = Vec::new();
    let mut i: usize = 0;
    while i + 1 < n
        invariant
            0 <= i < n,
            n == parts.len(),
            p.len() == n,
            parts@.map_values(|q: String| q@) == p,
            views(out@) == Seq::new(i as nat, |k: int| strip_cr(p[k])),
        decreases n - i,
    {
        let piece = chars_of(parts[i].as_str());
        assert(piece@ == p[i as int]);
        let line = if piece.len() > 0 && piece[piece.len() - 1] == '\r' {
            string_from_range(&piece, 0, piece.len() - 1)
        } else {
            parts[i].clone()
        };
        assert(line@ =~= strip_cr(p[i as int]));
        let ghost before = views(out@);
        let ghost lv = line@;
        out.push(line);
        assert(views(out@) =~= before.push(lv));
        assert(views(out@) =~= Seq::new((i + 1) as nat, |k: int| strip_cr(p[k])));
        i = i + 1;
    }
    let last = &parts[n - 1];
    assert(last@ == p[n - 1]);
    if chars_of(last.as_str()).len() > 0 {
        let ghost before = views(out@);
        out.push(last.clone());
        assert(views(out@) =~= before.push(p[n - 1]));
    }
    out
}

/// The methods a script declares as `fn <name>(ctx)`, in ascending order,
/// each once.
pub fn parse_compatible_methods(source: &str) -> (r: Vec<String>)
    ensures
        strictly_sorted(views(r@)),
        views(r@).to_set() == method_names(source@),
{
    let lines = source_lines(source);
    let ghost ls = text_lines(source@);
    let mut set = SortedStrings::new();
    assert(set@.to_set() =~= Set::<Seq<char>>::empty());
    let mut i: usize = 0;
    while i < lines.len()
        invariant
            0 <= i <= lines.len(),
            views(lines@) == ls,
            set@.to_set() == Set::new(
                |name: Seq<char>| exists|k: int| 0 <= k < i && #[trigger] decl_name(ls[k]) == Some(name),
            ),
        decreases lines.len() - i,
    {
        let ghost before = set@.to_set();
        assert(lines@[i as int]@ == ls[i as int]);
        if let Some(name) = parse_method_decl_line(lines[i].as_str()) {
            set.insert(name);
        }
        assert(set@.to_set() =~= Set::new(
            |name: Seq<char>| exists|k: int| 0 <= k < i + 1 && #[trigger] decl_name(ls[k]) == Some(name),
        )) by {
            assert forall|name: Seq<char>| set@.to_set().contains(name) && !before.contains(name) implies exists|k: int|
                0 <= k < i + 1 && #[trigger] decl_name(ls[k]) == Some(name) by {
                assert(decl_name(ls[i as int]) == Some(name));
            }
        }
        i = i + 1;
    }
    assert(set@.to_set() =~= method_names(source@));
    set.to_vec()
}

// ---------------------------------------------------------------------------
// Names and templates
// ---------------------------------------------------------------------------

/// Why a method name is refused.
#[derive(Debug, Clone, Copy, PartialEq, Eq)]
pub enum MethodNameError {
    Blank,
    ContainsNul,
    NotAnIdentifier,
}

impl MethodNameError {
    pub open spec fn spec_message(&self) -> Seq<char> {
        match self {
            MethodNameError::Blank => "method name cannot be blank"@,
            MethodNameError::ContainsNul => "method name cannot contain NUL bytes"@,
            MethodNameError::NotAnIdentifier =>
                "method name must be a valid identifier (letters, digits, underscore)"@,
        }
    }

    pub fn message(&self) -> (r: String)
        ensures
            r@ == self.spec_message(),
    {
        match self {
            MethodNameError::Blank => to_owned("method name cannot be blank"),
            MethodNameError::ContainsNul => to_owned("method name cannot contain NUL bytes"),
            MethodNameError::NotAnIdentifier => to_owned(
                "method name must be a valid identifier (letters, digits, underscore)",
            ),
        }
    }
}

pub open spec fn method_name_result(value: Seq<char>) -> Result<Seq<char>, MethodNameError> {
    let m = trim(value);
    if m.len() == 0 {
        Err(MethodNameError::Blank)
    } else if m.contains('\0') {
        Err(MethodNameError::ContainsNul)
    } else if !valid_ident(m) {
        Err(MethodNameError::NotAnIdentifier)
    } else {
        Ok(m)
    }
}

/// A method name, trimmed; it must be an identifier.
pub fn normalize_method_name(value: &str) -> (r: Result<String, MethodNameError>)
    ensures
        match method_name_result(value@) {
            Ok(m) => r is Ok && r->Ok_0@ == m,
            Err(e) => r == Err::<String, MethodNameError>(e),
        },
{
    let method = trim_str(value);
    if chars_of(method.as_str()).len() == 0 {
        return Err(MethodNameError::Blank);
    }
    if crate::text::contains_char(method.as_str(), '\0') {
        return Err(MethodNameError::ContainsNul);
    }
    if !is_valid_method_identifier(method.as_str()) {
        return Err(MethodNameError::NotAnIdentifier);
    }
    Ok(method)
}

/// A new method: a reconcile method returns an empty patch, a completion
/// method no candidates.
pub open spec fn template_text(name: Seq<char>, kind: RhaiMethodKind) -> Seq<char> {
    match kind {
        RhaiMethodKind::Reconcile => "fn "@ + name + "(ctx) {\n    #{}\n}\n"@,
        RhaiMethodKind::Bashcomp => "fn "@ + name + "(ctx) {\n    []\n}\n"@,
    }
}

pub fn method_template(method_name: &str, kind: RhaiMethodKind) -> (r: String)
    ensures
        r@ == template_text(method_name@, kind),
{
    match kind {
        RhaiMethodKind::Reconcile => concat3("fn ", method_name, "(ctx) {\n    #{}\n}\n"),
        RhaiMethodKind::Bashcomp => concat3("fn ", method_name, "(ctx) {\n    []\n}\n"),
    }
}

// ---------------------------------------------------------------------------
// Which method after an edit
// ---------------------------------------------------------------------------

/// The method a configuration names after its script was edited: the
/// configured one if it is still there; the one new method if the
/// configured one was the one method that disappeared; otherwise none.
pub open spec fn synced_method(before: Seq<Seq<char>>, after: Seq<Seq<char>>, configured: Option<Seq<char>>) -> Option<
    Seq<char>,
> {
    match configured {
        None => None,
        Some(c0) => {
            let c = trim(c0);
            if c.len() == 0 {
                None
            } else if after.contains(c) {
                Some(c)
            } else if before.to_set().difference(after.to_set()) == set![c] && exists|y: Seq<char>|
                after.to_set().difference(before.to_set()) == set![y] {
                Some(
                    choose|y: Seq<char>| after.to_set().difference(before.to_set()) == set![y],
                )
            } else {
                None
            }
        },
    }
}

proof fn lemma_take_next_contains(s: Seq<Seq<char>>, i: int, z: Seq<char>)
    requires
        0 <= i < s.len(),
    ensures
        s.take(i + 1).to_set().contains(z) <==> (s.take(i).to_set().contains(z) || z == s[i]),
{
    if s.take(i + 1).to_set().contains(z) {
        let k = choose|k: int| 0 <= k < s.take(i + 1).len() && #[trigger] s.take(i + 1)[k] == z;
        if k < i {
            assert(s.take(i)[k] == z);
        }
    }
    if s.take(i).to_set().contains(z) {
        let k = choose|k: int| 0 <= k < s.take(i).len() && #[trigger] s.take(i)[k] == z;
        assert(s.take(i + 1)[k] == z);
    }
    if z == s[i] {
        assert(s.take(i + 1)[i] == z);
    }
}

/// The distinct strings of `a` missing from `b`, in order.
fn missing_from(a: &[String], b: &[String]) -> (r: Vec<String>)
    ensures
        views(r@).to_set() == views(a@).to_set().difference(views(b@).to_set()),
        views(r@).no_duplicates(),
{
    let mut out: Vec<String> = Vec::new();
    let ghost av = views(a@);
    let ghost bv = views(b@);
    let mut i: usize = 0;
    while i < a.len()
        invariant
            0 <= i <= a.len(),
            av == views(a@),
            bv == views(b@),
            views(out@).no_duplicates(),
            views(out@).to_set() == av.take(i as int).to_set().difference(bv.to_set()),
        decreases a.len() - i,
    {
        let ghost before = views(out@);
        let x = a[i].as_str();
        assert(av.take(i + 1) =~= av.take(i as int).push(x@));
        let in_b = contains_str(b, x);
        let in_out = contains_str(out.as_slice(), x);
        if !in_b && !in_out {
            out.push(a[i].clone());
            assert(views(out@) =~= before.push(x@));
        }
        assert forall|z: Seq<char>| av.take(i + 1).to_set().contains(z) <==> (av.take(
            i as int,
        ).to_set().contains(z) || z == x@) by {
            if av.take(i + 1).to_set().contains(z) {
                let k = choose|k: int| 0 <= k < av.take(i + 1).len() && #[trigger] av.take(i + 1)[k] == z;
                if k < i {
                    assert(av.take(i as int)[k] == z);
                }
            }
            if av.take(i as int).to_set().contains(z) {
                let k = choose|k: int| 0 <= k < av.take(i as int).len() && #[trigger] av.take(i as int)[k] == z;
                assert(av.take(i + 1)[k] == z);
            }
            if z == x@ {
                assert(av.take(i + 1)[i as int] == z);
            }
        }
        assert forall|z: Seq<char>| views(out@).to_set().contains(z) <==> (before.to_set().contains(z) || (
        z == x@ && !in_b && !in_out)) by {
            if views(out@).to_set().contains(z) {
                let k = choose|k: int| 0 <= k < views(out@).len() && #[trigger] views(out@)[k] == z;
                if k < before.len() {
                    assert(before[k] == z);
                }
            }
            if before.to_set().contains(z) {
                let k = choose|k: int| 0 <= k < before.len() && #[trigger] before[k] == z;
                assert(views(out@)[k] == z);
            }
            if z == x@ && !in_b && !in_out {
                assert(views(out@)[before.len() as int] == z);
            }
        }
        assert(in_b == bv.to_set().contains(x@));
        assert(in_out == before.to_set().contains(x@));
        assert(before.to_set() == av.take(i as int).to_set().difference(bv.to_set()));
        assert forall|z: Seq<char>| #[trigger] views(out@).to_set().contains(z) <==> av.take(
            i + 1,
        ).to_set().difference(bv.to_set()).contains(z) by {
            lemma_take_next_contains(av, i as int, z);
            assert(av.take(i + 1).to_set().contains(z) <==> (av.take(i as int).to_set().contains(z)
                || z == x@));
            assert(views(out@).to_set().contains(z) <==> (before.to_set().contains(z) || (z == x@
                && !in_b && !in_out)));
            assert(before.to_set().contains(z) <==> (av.take(i as int).to_set().contains(z)
                && !bv.to_set().contains(z)));
            if z == x@ {
                if in_out {
                    assert(before.to_set().contains(z));
                }
            }
        }
        assert(views(out@).to_set() =~= av.take(i + 1).to_set().difference(bv.to_set()));
        i = i + 1;
    }
    assert(av.take(a.len() as int) =~= av);
    out
}

fn contains_str(v: &[String], x: &str) -> (r: bool)
    ensures
        r == views(v@).contains(x@),
{
    let mut i: usize = 0;
    while i < v.len()
        invariant
            0 <= i <= v.len(),
            forall|j: int| 0 <= j < i ==> views(v@)[j] != x@,
        decreases v.len() - i,
    {
        if str_eq(v[i].as_str(), x) {
            assert(views(v@)[i as int] == x@);
            return true;
        }
        i = i + 1;
    }
    false
}

proof fn lemma_singleton_no_dup(s: Seq<Seq<char>>, x: Seq<char>)
    requires
        s.no_duplicates(),
        s.to_set() == set![x],
    ensures
        s.len() == 1,
        s[0] == x,
{
    assert(s.to_set().contains(x));
    if s.len() >= 2 {
        assert(s.to_set().contains(s[0]));
        assert(s.to_set().contains(s[1]));
    }
}

/// The method a configuration should name after its script changed from
/// `before_methods` to `after_methods`.
pub fn sync_method_after_edit(
    before_methods: &[String],
    after_methods: &[String],
    configured_method: Option<&str>,
) -> (r: Option<String>)
    ensures
        crate::journal_validation::opt_string_view(r) == synced_method(
            views(before_methods@),
            views(after_methods@),
            crate::journal_validation::opt_view(configured_method),
        ),
{
    let configured = match configured_method {
        Some(c) => trim_str(c),
        None => {
            return None;
        },
    };
    if chars_of(configured.as_str()).len() == 0 {
        return None;
    }
    if contains_str(after_methods, configured.as_str()) {
        return Some(configured);
    }
    let ghost bs = views(before_methods@).to_set();
    let ghost as_ = views(after_methods@).to_set();
    let disappeared = missing_from(before_methods, after_methods);
    let appeared = missing_from(after_methods, before_methods);
    if disappeared.len() == 1 && appeared.len() == 1 && str_eq(
        disappeared[0].as_str(),
        configured.as_str(),
    ) {
        proof {
            assert(views(disappeared@).to_set() =~= set![configured@]) by {
                assert(views(disappeared@)[0] == configured@);
            }
            assert(views(appeared@).to_set() =~= set![appeared@[0]@]) by {
                assert(views(appeared@)[0] == appeared@[0]@);
            }
            let y = choose|y: Seq<char>| as_.difference(bs) == set![y];
            assert(set![y].contains(y));
            assert(set![appeared@[0]@].contains(y));
        }
        return Some(appeared[0].clone());
    }
    proof {
        if bs.difference(as_) == set![configured@] && exists|y: Seq<char>| as_.difference(bs) == set![y] {
            let y = choose|y: Seq<char>| as_.difference(bs) == set![y];
            lemma_singleton_no_dup(views(disappeared@), configured@);
            lemma_singleton_no_dup(views(appeared@), y);
        }
    }
    None
}

// ---------------------------------------------------------------------------
// Renaming and adding methods
// ---------------------------------------------------------------------------

/// The declaration line `line` with method `old` renamed to `new`, the
/// indentation and everything after the name kept.
pub open spec fn rewritten_decl(line: Seq<char>, old: Seq<char>, new: Seq<char>) -> Option<Seq<char>> {
    let t = trim_start(line);
    let indent = line.take(line.len() - t.len());
    if !starts_with(t, "fn "@) {
        None
    } else {
        let rest = t.subrange(3, t.len() as int);
        let n = ident_len(rest) as int;
        if n == 0 || rest.take(n) != old {
            None
        } else {
            Some(indent + "fn "@ + new + rest.subrange(n, rest.len() as int))
        }
    }
}

proof fn lemma_trim_start_suffix(s: Seq<char>)
    ensures
        trim_start(s).len() <= s.len(),
        s.subrange(s.len() - trim_start(s).len(), s.len() as int) == trim_start(s),
    decreases s.len(),
{
    if s.len() > 0 && crate::text::is_ws(s[0]) {
        lemma_trim_start_suffix(s.drop_first());
        assert(s.drop_first().subrange(s.drop_first().len() - trim_start(s).len(), s.drop_first().len() as int)
            =~= s.subrange(s.len() - trim_start(s).len(), s.len() as int));
    } else {
        assert(s.subrange(0, s.len() as int) =~= s);
    }
}

pub fn rewrite_decl_line_name(line: &str, old_name: &str, new_name: &str) -> (r: Option<String>)
    ensures
        crate::journal_validation::opt_string_view(r) == rewritten_decl(line@, old_name@, new_name@),
{
    let v = chars_of(line);
    assert(v@.subrange(0, v@.len() as int) =~= v@);
    let s = start_of_text(&v, 0);
    proof {
        lemma_trim_start_suffix(line@);
    }
    let ghost t = v@.subrange(s as int, v@.len() as int);
    assert(v@.take(s as int) =~= line@.take(line@.len() - t.len()));
    if !(v.len() - s >= 3 && v[s] == 'f' && v[s + 1] == 'n' && v[s + 2] == ' ') {
        proof {
            reveal_strlit("fn ");
            if starts_with(t, "fn "@) {
                assert(t.subrange(0, 3)[0] == 'f');
                assert(t.subrange(0, 3)[1] == 'n');
                assert(t.subrange(0, 3)[2] == ' ');
            }
        }
        return None;
    }
    proof {
        reveal_strlit("fn ");
        assert(t.subrange(0, 3) =~= "fn "@);
    }
    let start = s + 3;
    let ghost rest = t.subrange(3, t.len() as int);
    assert(rest =~= v@.subrange(start as int, v@.len() as int));
    let mut e = start;
    while e < v.len() && is_ident_continue(v[e])
        invariant
            start <= e <= v.len(),
            rest == v@.subrange(start as int, v@.len() as int),
            forall|j: int| start <= j < e ==> is_ident_char(#[trigger] v@[j]),
        decreases v.len() - e,
    {
        e = e + 1;
    }
    proof {
        assert forall|j: int| 0 <= j < e - start implies is_ident_char(#[trigger] rest[j]) by {
            assert(rest[j] == v@[start + j]);
        }
        if e < v.len() {
            assert(rest[e - start] == v@[e as int]);
        }
        lemma_ident_len(rest, e - start);
    }
    if e == start {
        return None;
    }
    let current = string_from_range(&v, start, e);
    assert(current@ =~= rest.take(e - start));
    if !str_eq(current.as_str(), old_name) {
        return None;
    }
    let indent = string_from_range(&v, 0, s);
    let tail = string_from_range(&v, e, v.len());
    assert(tail@ =~= rest.subrange(e - start, rest.len() as int));
    let mut r = concat3(indent.as_str(), "fn ", new_name);
    r.append(tail.as_str());
    Some(r)
}

/// How many pieces declare method `old`.
pub open spec fn hit_count(pieces: Seq<Seq<char>>, old: Seq<char>) -> nat
    decreases pieces.len(),
{
    if pieces.len() == 0 {
        0
    } else {
        hit_count(pieces.drop_last(), old) + if decl_name(pieces.last()) == Some(old) {
            1nat
        } else {
            0nat
        }
    }
}

/// The last piece that declares method `old`, or -1.
pub open spec fn last_hit(pieces: Seq<Seq<char>>, old: Seq<char>) -> int
    decreases pieces.len(),
{
    if pieces.len() == 0 {
        -1
    } else if decl_name(pieces.last()) == Some(old) {
        pieces.len() - 1
    } else {
        last_hit(pieces.drop_last(), old)
    }
}

/// `source` with the one declaration of `old` renamed to `new`; none when
/// a name is no identifier, `new` is already declared, `old` is not
/// declared exactly once, or its line cannot be rewritten.
pub open spec fn renamed_source(source: Seq<char>, old: Seq<char>, new: Seq<char>) -> Option<Seq<char>> {
    let pieces = split_on(source, '\n');
    if !valid_ident(old) || !valid_ident(new) || method_names(source).contains(new) {
        None
    } else if hit_count(pieces, old) != 1 {
        None
    } else {
        let t = last_hit(pieces, old);
        match rewritten_decl(pieces[t], old, new) {
            None => None,
            Some(line) => Some(join_with(pieces.update(t, line), "\n"@)),
        }
    }
}

proof fn lemma_last_hit_range(pieces: Seq<Seq<char>>, old: Seq<char>)
    ensures
        -1 <= last_hit(pieces, old) < pieces.len(),
        hit_count(pieces, old) > 0 ==> last_hit(pieces, old) >= 0,
    decreases pieces.len(),
{
    if pieces.len() > 0 {
        lemma_last_hit_range(pieces.drop_last(), old);
    }
}

pub fn rename_method_declaration_in_source(source: &str, old_name: &str, new_name: &str) -> (r: Option<String>)
    ensures
        crate::journal_validation::opt_string_view(r) == renamed_source(source@, old_name@, new_name@),
{
    if !is_valid_method_identifier(old_name) || !is_valid_method_identifier(new_name) {
        return None;
    }
    let discovered = parse_compatible_methods(source);
    if contains_str(discovered.as_slice(), new_name) {
        return None;
    }
    let parts = split_str(source, '\n');
    let ghost p = split_on(source@, '\n');
    assert(views(parts@) =~= p);
    let mut count: usize = 0;
    let mut target: usize = 0;
    let mut i: usize = 0;
    assert(p.take(0) =~= Seq::<Seq<char>>::empty());
    while i < parts.len()
        invariant
            0 <= i <= parts.len(),
            views(parts@) == p,
            count == hit_count(p.take(i as int), old_name@),
            count <= i,
            count > 0 ==> target as int == last_hit(p.take(i as int), old_name@),
        decreases parts.len() - i,
    {
        assert(p.take(i + 1).drop_last() =~= p.take(i as int));
        assert(p.take(i + 1).last() == parts@[i as int]@);
        match parse_method_decl_line(parts[i].as_str()) {
            Some(name) => {
                if str_eq(name.as_str(), old_name) {
                    count = count + 1;
                    target = i;
                }
            },
            None => {},
        }
        i = i + 1;
    }
    assert(p.take(parts.len() as int) =~= p);
    if count != 1 {
        return None;
    }
    proof {
        lemma_last_hit_range(p, old_name@);
    }
    let renamed = match rewrite_decl_line_name(parts[target].as_str(), old_name, new_name) {
        Some(line) => line,
        None => {
            return None;
        },
    };
    let mut rebuilt = parts;
    let ghost rv = renamed@;
    rebuilt.set(target, renamed);
    assert(rebuilt@.map_values(|q: String| q@) =~= p.update(target as int, rv));
    Some(crate::text::join_strings(&rebuilt, "\n"))
}

/// What the script file should hold so that it declares the method: the
/// template alone for a missing file, the source with the template
/// appended (after a blank line) when the method is missing, or no change.
pub open spec fn ensured_source(existing: Option<Seq<char>>, name: Seq<char>, kind: RhaiMethodKind) -> Option<
    Seq<char>,
> {
    match existing {
        None => Some(template_text(name, kind)),
        Some(src) => if method_names(src).contains(name) {
            None
        } else {
            Some(
                src + (if src.len() > 0 && src.last() == '\n' {
                    Seq::empty()
                } else {
                    "\n"@
                }) + "\n"@ + template_text(name, kind),
            )
        },
    }
}

fn ensure_with_name(existing: Option<&str>, name: &str, kind: RhaiMethodKind) -> (r: Option<String>)
    ensures
        crate::journal_validation::opt_string_view(r) == ensured_source(
            crate::journal_validation::opt_view(existing),
            name@,
            kind,
        ),
{
    let src = match existing {
        None => {
            return Some(method_template(name, kind));
        },
        Some(s) => s,
    };
    let methods = parse_compatible_methods(src);
    if contains_str(methods.as_slice(), name) {
        return None;
    }
    let v = chars_of(src);
    let mut updated = to_owned(src);
    if !(v.len() > 0 && v[v.len() - 1] == '\n') {
        updated.append("\n");
    }
    updated.append("\n");
    let t = method_template(name, kind);
    updated.append(t.as_str());
    Some(updated)
}

/// The new content of a script so that it declares `method_name`, or
/// `None` when it already does.
pub fn ensure_method_source(existing: Option<&str>, method_name: &str, kind: RhaiMethodKind) -> (r: Result<
    Option<String>,
    MethodNameError,
>)
    ensures
        match method_name_result(method_name@) {
            Err(e) => r == Err::<Option<String>, MethodNameError>(e),
            Ok(m) => r is Ok && crate::journal_validation::opt_string_view(r->Ok_0) == ensured_source(
                crate::journal_validation::opt_view(existing),
                m,
                kind,
            ),
        },
{
    let name = normalize_method_name(method_name)?;
    Ok(ensure_with_name(existing, name.as_str(), kind))
}

/// The new content of a script after the method `old` (if given) is
/// renamed to `new`: a missing file gets the template; an unambiguous
/// declaration of `old` is renamed; otherwise `new` is ensured.
pub open spec fn rename_or_create_result(
    existing: Option<Seq<char>>,
    old: Option<Seq<char>>,
    new: Seq<char>,
    kind: RhaiMethodKind,
) -> Option<Seq<char>> {
    match existing {
        None => Some(template_text(new, kind)),
        Some(src) => {
            let o = match old {
                Some(v) => if trim(v).len() > 0 {
                    Some(trim(v))
                } else {
                    None
                },
                None => None,
            };
            match o {
                Some(o) => if o == new {
                    ensured_source(existing, new, kind)
                } else {
                    match renamed_source(src, o, new) {
                        Some(r) => Some(r),
                        None => ensured_source(existing, new, kind),
                    }
                },
                None => ensured_source(existing, new, kind),
            }
        },
    }
}

pub fn rename_method_or_create_source(
    existing: Option<&str>,
    old_name: Option<&str>,
    new_name: &str,
    kind: RhaiMethodKind,
) -> (r: Result<Option<String>, MethodNameError>)
    ensures
        match method_name_result(new_name@) {
            Err(e) => r == Err::<Option<String>, MethodNameError>(e),
            Ok(n) => r is Ok && crate::journal_validation::opt_string_view(r->Ok_0)
                == rename_or_create_result(
                crate::journal_validation::opt_view(existing),
                crate::journal_validation::opt_view(old_name),
                n,
                kind,
            ),
        },
{
    let new = normalize_method_name(new_name)?;
    let src = match existing {
        None => {
            return Ok(Some(method_template(new.as_str(), kind)));
        },
        Some(s) => s,
    };
    let old = match old_name {
        Some(v) => {
            let t = trim_str(v);
            if chars_of(t.as_str()).len() > 0 {
                Some(t)
            } else {
                None
            }
        },
        None => None,
    };
    if let Some(o) = old {
        if str_eq(o.as_str(), new.as_str()) {
            return Ok(ensure_with_name(existing, new.as_str(), kind));
        }
        if let Some(renamed) = rename_method_declaration_in_source(src, o.as_str(), new.as_str()) {
            return Ok(Some(renamed));
        }
    }
    Ok(ensure_with_name(existing, new.as_str(), kind))
}

} // verus!
