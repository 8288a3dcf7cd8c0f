//! Editing of colon-separated PATH lists: removal by regular expression,
//! and appending or prepending an entry after removing the entries that name
//! the same directory.
use crate::path_mutation_validation::{validate_path_mutation_value, PathMutationViolation};
use crate::text::{
    concat3, join_strings, join_with, split_on, split_str, to_owned,
    views,
};
use vstd::prelude::*;

verus! {

// ---------------------------------------------------------------------------
// Regular expressions (the `regex` crate)
// ---------------------------------------------------------------------------

#[verifier::external_type_specification]
#[verifier::external_body]
pub struct ExRegex(regex::Regex);

#[verifier::external_type_specification]
#[verifier::external_body]
pub struct ExRegexError(regex::Error);

/// Whether `regex::Regex::new` accepts `pattern`.
pub uninterp spec fn regex_accepts(pattern: Seq<char>) -> bool;

/// Whether the regex compiled from `pattern` matches somewhere in `text`
/// (`regex::Regex::is_match`).
pub uninterp spec fn regex_matches(pattern: Seq<char>, text: Seq<char>) -> bool;

/// `regex::Regex::new`: succeeds exactly for the patterns the crate accepts.
/// Nothing is claimed of the compiled value here; `CompiledPattern` keeps
/// the pattern beside it.
#[verifier::external_body]
fn regex_new(pattern: &str) -> (r: Result<regex::Regex, regex::Error>)
    ensures
        r is Ok <==> regex_accepts(pattern@),
{
    regex::Regex::new(pattern)
}

/// The text of a `regex::Error` (its `Display`); nothing is claimed of it.
#[verifier::external_body]
fn regex_error_text(err: &regex::Error) -> String {
    err.to_string()
}

/// A regular expression together with the pattern it was compiled from.
/// The fields are private and `compile` is the only constructor, so
/// `regex` is always the compilation of `pattern`.
pub struct CompiledPattern {
    pattern: Ghost<Seq<char>>,
    regex: regex::Regex,
}

impl CompiledPattern {
    pub closed spec fn pattern(&self) -> Seq<char> {
        self.pattern@
    }

    /// Compiles `pattern`, or returns the crate's error text.
    pub fn compile(pattern: &str) -> (r: Result<CompiledPattern, String>)
        ensures
            r is Ok <==> regex_accepts(pattern@),
            r matches Ok(p) ==> p.pattern() == pattern@,
    {
        match regex_new(pattern) {
            Ok(regex) => Ok(CompiledPattern { pattern: Ghost(pattern@), regex }),
            Err(e) => Err(regex_error_text(&e)),
        }
    }
}

/// `regex::Regex::is_match` on the compiled pattern.
#[verifier::external_body]
fn pattern_is_match(p: &CompiledPattern, text: &str) -> (b: bool)
    ensures
        b == regex_matches(p.pattern(), text@),
{
    p.regex.is_match(text)
}

// ---------------------------------------------------------------------------
// Configuration
// ---------------------------------------------------------------------------

/// The PATH edits an alias asks for; each list is applied in this order.
#[derive(Debug, Clone, PartialEq, Eq)]
pub struct PathMutationConfig {
    pub remove_all: Vec<String>,
    pub remove_one: Vec<String>,
    pub append_all: Vec<String>,
    pub append_one: Vec<String>,
    pub prepend_all: Vec<String>,
    pub prepend_one: Vec<String>,
}

impl Default for PathMutationConfig {
    fn default() -> (r: Self)
        ensures
            r.remove_all@.len() == 0,
            r.remove_one@.len() == 0,
            r.append_all@.len() == 0,
            r.append_one@.len() == 0,
            r.prepend_all@.len() == 0,
            r.prepend_one@.len() == 0,
    {
        PathMutationConfig {
            remove_all: Vec::new(),
            remove_one: Vec::new(),
            append_all: Vec::new(),
            append_one: Vec::new(),
            prepend_all: Vec::new(),
            prepend_one: Vec::new(),
        }
    }
}

/// What can go wrong when editing a PATH list.
#[derive(Debug, Clone, PartialEq, Eq)]
pub enum PathMutationError {
    ListContainsNul { context: String },
    OperandContainsNul { context: String },
    InvalidRegex { context: String, pattern: String, detail: String },
    EntryContainsNul { field_prefix: String, field_name: String },
    ComponentContainsColon,
}

impl PathMutationError {
    pub open spec fn spec_message(&self) -> Seq<char> {
        match self {
            PathMutationError::ListContainsNul { context } => context@ + " list cannot contain NUL bytes"@,
            PathMutationError::OperandContainsNul { context } => context@ + " operand cannot contain NUL bytes"@,
            PathMutationError::InvalidRegex { context, pattern, detail } => context@
                + " contains invalid regex `"@ + pattern@ + "`: "@ + detail@,
            PathMutationError::EntryContainsNul { field_prefix, field_name } => "field `"@ + field_prefix@
                + "."@ + field_name@ + "` entries cannot contain NUL bytes"@,
            PathMutationError::ComponentContainsColon => "failed to join PATH components: path segment contains separator `:`"@,
        }
    }

    pub fn message(&self) -> (r: String)
        ensures
            r@ == self.spec_message(),
    {
        match self {
            PathMutationError::ListContainsNul { context } => crate::text::concat2(
                context.as_str(),
                " list cannot contain NUL bytes",
            ),
            PathMutationError::OperandContainsNul { context } => crate::text::concat2(
                context.as_str(),
                " operand cannot contain NUL bytes",
            ),
            PathMutationError::InvalidRegex { context, pattern, detail } => {
                let mut r = concat3(context.as_str(), " contains invalid regex `", pattern.as_str());
                r.append("`: ");
                r.append(detail.as_str());
                r
            },
            PathMutationError::EntryContainsNul { field_prefix, field_name } => {
                let mut r = concat3("field `", field_prefix.as_str(), ".");
                r.append(field_name.as_str());
                r.append("` entries cannot contain NUL bytes");
                r
            },
            PathMutationError::ComponentContainsColon => to_owned(
                "failed to join PATH components: path segment contains separator `:`",
            ),
        }
    }
}

#[derive(Debug, Clone, Copy, PartialEq, Eq)]
pub enum SinglePathOpKind {
    RemoveAll,
    RemoveOne,
    AppendAll,
    AppendOne,
    PrependAll,
    PrependOne,
}

impl PathMutationConfig {
    pub fn is_empty(&self) -> (r: bool)
        ensures
            r == (self.remove_all@.len() == 0 && self.remove_one@.len() == 0
                && self.append_all@.len() == 0 && self.append_one@.len() == 0
                && self.prepend_all@.len() == 0 && self.prepend_one@.len() == 0),
    {
        self.remove_all.len() == 0 && self.remove_one.len() == 0 && self.append_all.len() == 0
            && self.append_one.len() == 0 && self.prepend_all.len() == 0
            && self.prepend_one.len() == 0
    }

    /// Refuses the first list (in field order) holding an entry with NUL.
    pub fn validate(&self, field_prefix: &str) -> (r: Result<(), PathMutationError>)
        ensures
            match first_nul_field(*self) {
                None => r is Ok,
                Some(name) => r matches Err(
                    PathMutationError::EntryContainsNul { field_prefix: p, field_name: n },
                ) && p@ == field_prefix@ && n@ == name,
            },
    {
        validate_values(&self.remove_all, field_prefix, "remove_all")?;
        validate_values(&self.remove_one, field_prefix, "remove_one")?;
        validate_values(&self.append_all, field_prefix, "append_all")?;
        validate_values(&self.append_one, field_prefix, "append_one")?;
        validate_values(&self.prepend_all, field_prefix, "prepend_all")?;
        validate_values(&self.prepend_one, field_prefix, "prepend_one")?;
        Ok(())
    }
}

/// The name of the first list of `c` (in field order) with an entry that
/// holds NUL.
pub open spec fn first_nul_field(c: PathMutationConfig) -> Option<Seq<char>> {
    if !no_nul_entries(views(c.remove_all@)) {
        Some("remove_all"@)
    } else if !no_nul_entries(views(c.remove_one@)) {
        Some("remove_one"@)
    } else if !no_nul_entries(views(c.append_all@)) {
        Some("append_all"@)
    } else if !no_nul_entries(views(c.append_one@)) {
        Some("append_one"@)
    } else if !no_nul_entries(views(c.prepend_all@)) {
        Some("prepend_all"@)
    } else if !no_nul_entries(views(c.prepend_one@)) {
        Some("prepend_one"@)
    } else {
        None
    }
}

pub open spec fn no_nul_entries(s: Seq<Seq<char>>) -> bool {
    forall|i: int| 0 <= i < s.len() ==> !(#[trigger] s[i]).contains('\0')
}

pub fn validate_values(values: &Vec<String>, field_prefix: &str, field_name: &str) -> (r: Result<
    (),
    PathMutationError,
>)
    ensures
        r is Ok <==> no_nul_entries(views(values@)),
        r matches Err(e) ==> e == (PathMutationError::EntryContainsNul {
            field_prefix: e->field_prefix,
            field_name: e->field_name,
        }) && e->field_prefix@ == field_prefix@ && e->field_name@ == field_name@,
{
    let mut i: usize = 0;
    while i < values.len()
        invariant
            0 <= i <= values.len(),
            forall|j: int| 0 <= j < i ==> !(#[trigger] views(values@)[j]).contains('\0'),
        decreases values.len() - i,
    {
        match validate_path_mutation_value(values[i].as_str()) {
            Ok(()) => {},
            Err(PathMutationViolation::ContainsNul) => {
                assert(views(values@)[i as int].contains('\0'));
                return Err(
                    PathMutationError::EntryContainsNul {
                        field_prefix: to_owned(field_prefix),
                        field_name: to_owned(field_name),
                    },
                );
            },
        }
        i = i + 1;
    }
    Ok(())
}

// ---------------------------------------------------------------------------
// Directory identity
// ---------------------------------------------------------------------------

/// The directory identities (device and inode of the canonical path) that
/// the caller found for some path strings; a string it holds no identity for
/// names no existing directory and is equivalent to nothing.
#[derive(Debug, Clone)]
pub struct PathIdentities {
    pub entries: Vec<(String, u64, u64)>,
}

pub open spec fn identity_in(s: Seq<(String, u64, u64)>, path: Seq<char>) -> Option<(u64, u64)>
    decreases s.len(),
{
    if s.len() == 0 {
        None
    } else if s[0].0@ == path {
        Some((s[0].1, s[0].2))
    } else {
        identity_in(s.drop_first(), path)
    }
}

impl PathIdentities {
    pub fn new() -> (r: PathIdentities)
        ensures
            r.entries@.len() == 0,
    {
        PathIdentities { entries: Vec::new() }
    }

    pub open spec fn identity(&self, path: Seq<char>) -> Option<(u64, u64)> {
        identity_in(self.entries@, path)
    }

    /// Two entries name the same directory when both have an identity and
    /// the identities agree.
    pub open spec fn equivalent(&self, left: Seq<char>, right: Seq<char>) -> bool {
        self.identity(left) is Some && self.identity(left) == self.identity(right)
    }

    pub fn lookup(&self, path: &str) -> (r: Option<(u64, u64)>)
        ensures
            r == self.identity(path@),
    {
        let mut i: usize = 0;
        assert(self.entries@.subrange(0, self.entries@.len() as int) =~= self.entries@);
        while i < self.entries.len()
            invariant
                0 <= i <= self.entries.len(),
                identity_in(self.entries@, path@) == identity_in(
                    self.entries@.subrange(i as int, self.entries@.len() as int),
                    path@,
                ),
            decreases self.entries.len() - i,
        {
            let ghost rest = self.entries@.subrange(i as int, self.entries@.len() as int);
            assert(rest.drop_first() =~= self.entries@.subrange(i + 1, self.entries@.len() as int));
            if crate::text::str_eq(self.entries[i].0.as_str(), path) {
                return Some((self.entries[i].1, self.entries[i].2));
            }
            i = i + 1;
        }
        None
    }

    pub fn components_equivalent(&self, left: &str, right: &str) -> (r: bool)
        ensures
            r == self.equivalent(left@, right@),
    {
        match self.lookup(left) {
            None => false,
            Some(l) => match self.lookup(right) {
                None => false,
                Some(r) => l.0 == r.0 && l.1 == r.1,
            },
        }
    }
}

// ---------------------------------------------------------------------------
// List operations
// ---------------------------------------------------------------------------

/// The entries of `s` that `keep` holds of, in order (`Vec::retain`).
pub open spec fn retain(s: Seq<Seq<char>>, keep: spec_fn(Seq<char>) -> bool) -> Seq<Seq<char>>
    decreases s.len(),
{
    if s.len() == 0 {
        s
    } else if keep(s.last()) {
        retain(s.drop_last(), keep).push(s.last())
    } else {
        retain(s.drop_last(), keep)
    }
}

/// `s` without its first entry that `hit` holds of.
pub open spec fn remove_first(s: Seq<Seq<char>>, hit: spec_fn(Seq<char>) -> bool) -> Seq<
    Seq<char>,
>
    decreases s.len(),
{
    if s.len() == 0 {
        s
    } else if hit(s[0]) {
        s.drop_first()
    } else {
        seq![s[0]] + remove_first(s.drop_first(), hit)
    }
}

pub proof fn lemma_retain_keeps(s: Seq<Seq<char>>, keep: spec_fn(Seq<char>) -> bool)
    ensures
        forall|i: int| 0 <= i < retain(s, keep).len() ==> keep(#[trigger] retain(s, keep)[i]),
    decreases s.len(),
{
    if s.len() > 0 {
        lemma_retain_keeps(s.drop_last(), keep);
        let r0 = retain(s.drop_last(), keep);
        if keep(s.last()) {
            assert forall|i: int| 0 <= i < retain(s, keep).len() implies keep(
                #[trigger] retain(s, keep)[i],
            ) by {
                if i < r0.len() {
                    assert(retain(s, keep)[i] == r0[i]);
                }
            }
        }
    }
}

proof fn lemma_remove_first_step(s: Seq<Seq<char>>, hit: spec_fn(Seq<char>) -> bool, i: int)
    requires
        0 <= i < s.len(),
        forall|j: int| 0 <= j < i ==> !hit(#[trigger] s[j]),
        hit(s[i]),
    ensures
        remove_first(s, hit) == s.remove(i),
    decreases i,
{
    if i > 0 {
        assert(!hit(s[0]));
        assert forall|j: int| 0 <= j < i - 1 implies !hit(#[trigger] s.drop_first()[j]) by {
            assert(s.drop_first()[j] == s[j + 1]);
        }
        lemma_remove_first_step(s.drop_first(), hit, i - 1);
        assert(seq![s[0]] + s.drop_first().remove(i - 1) =~= s.remove(i));
    } else {
        assert(s.drop_first() =~= s.remove(0));
    }
}

proof fn lemma_remove_first_none(s: Seq<Seq<char>>, hit: spec_fn(Seq<char>) -> bool)
    requires
        forall|j: int| 0 <= j < s.len() ==> !hit(#[trigger] s[j]),
    ensures
        remove_first(s, hit) == s,
    decreases s.len(),
{
    if s.len() > 0 {
        assert(!hit(s[0]));
        assert forall|j: int| 0 <= j < s.len() - 1 implies !hit(#[trigger] s.drop_first()[j]) by {
            assert(s.drop_first()[j] == s[j + 1]);
        }
        lemma_remove_first_none(s.drop_first(), hit);
        assert(seq![s[0]] + s.drop_first() =~= s);
    }
}

/// The result of one list operation, or `None` when its regex is refused.
pub open spec fn single_op(
    s: Seq<Seq<char>>,
    kind: SinglePathOpKind,
    operand: Seq<char>,
    ids: PathIdentities,
) -> Option<Seq<Seq<char>>> {
    let matches = |c: Seq<char>| regex_matches(operand, c);
    let unmatched = |c: Seq<char>| !regex_matches(operand, c);
    let equiv = |c: Seq<char>| ids.equivalent(c, operand);
    let not_equiv = |c: Seq<char>| !ids.equivalent(c, operand);
    match kind {
        SinglePathOpKind::RemoveAll => if regex_accepts(operand) {
            Some(retain(s, unmatched))
        } else {
            None
        },
        SinglePathOpKind::RemoveOne => if regex_accepts(operand) {
            Some(remove_first(s, matches))
        } else {
            None
        },
        SinglePathOpKind::AppendAll => Some(retain(s, not_equiv).push(operand)),
        SinglePathOpKind::AppendOne => Some(remove_first(s, equiv).push(operand)),
        SinglePathOpKind::PrependAll => Some(seq![operand] + retain(s, not_equiv)),
        SinglePathOpKind::PrependOne => Some(seq![operand] + remove_first(s, equiv)),
    }
}

/// `ops` of one `kind` applied in order.
pub open spec fn fold_ops(
    s: Seq<Seq<char>>,
    kind: SinglePathOpKind,
    ops: Seq<Seq<char>>,
    ids: PathIdentities,
) -> Option<Seq<Seq<char>>>
    decreases ops.len(),
{
    if ops.len() == 0 {
        Some(s)
    } else {
        match fold_ops(s, kind, ops.drop_last(), ids) {
            None => None,
            Some(t) => single_op(t, kind, ops.last(), ids),
        }
    }
}

/// All six lists of `config` applied in field order: removals first.
pub open spec fn apply_config(
    s: Seq<Seq<char>>,
    config: PathMutationConfig,
    ids: PathIdentities,
) -> Option<Seq<Seq<char>>> {
    match fold_ops(s, SinglePathOpKind::RemoveAll, views(config.remove_all@), ids) {
        None => None,
        Some(s1) => match fold_ops(s1, SinglePathOpKind::RemoveOne, views(config.remove_one@), ids) {
            None => None,
            Some(s2) => match fold_ops(
                s2,
                SinglePathOpKind::AppendAll,
                views(config.append_all@),
                ids,
            ) {
                None => None,
                Some(s3) => match fold_ops(
                    s3,
                    SinglePathOpKind::AppendOne,
                    views(config.append_one@),
                    ids,
                ) {
                    None => None,
                    Some(s4) => match fold_ops(
                        s4,
                        SinglePathOpKind::PrependAll,
                        views(config.prepend_all@),
                        ids,
                    ) {
                        None => None,
                        Some(s5) => fold_ops(
                            s5,
                            SinglePathOpKind::PrependOne,
                            views(config.prepend_one@),
                            ids,
                        ),
                    },
                },
            },
        },
    }
}

fn remove_all_matching(components: &mut Vec<String>, pattern: &CompiledPattern)
    ensures
        views(final(components)@) == retain(
            views(old(components)@),
            |c: Seq<char>| !regex_matches(pattern.pattern(), c),
        ),
{
    let ghost keep = |c: Seq<char>| !regex_matches(pattern.pattern(), c);
    let mut out: Vec<String> = Vec::new();
    let mut i: usize = 0;
    while i < components.len()
        invariant
            0 <= i <= components.len(),
            views(out@) == retain(views(components@).take(i as int), keep),
            keep == (|c: Seq<char>| !regex_matches(pattern.pattern(), c)),
        decreases components.len() - i,
    {
        let ghost prefix = views(components@).take(i + 1);
        assert(prefix.drop_last() =~= views(components@).take(i as int));
        if !pattern_is_match(pattern, components[i].as_str()) {
            let ghost before = views(out@);
            out.push(components[i].clone());
            assert(views(out@) =~= before.push(components@[i as int]@));
        }
        i = i + 1;
    }
    assert(views(components@).take(components.len() as int) =~= views(components@));
    *components = out;
}

fn remove_first_matching(components: &mut Vec<String>, pattern: &CompiledPattern)
    ensures
        views(final(components)@) == remove_first(
            views(old(components)@),
            |c: Seq<char>| regex_matches(pattern.pattern(), c),
        ),
{
    let ghost hit = |c: Seq<char>| regex_matches(pattern.pattern(), c);
    let mut i: usize = 0;
    while i < components.len()
        invariant
            0 <= i <= components.len(),
            components@ == old(components)@,
            forall|j: int| 0 <= j < i ==> !hit(#[trigger] views(components@)[j]),
            hit == (|c: Seq<char>| regex_matches(pattern.pattern(), c)),
        decreases components.len() - i,
    {
        if pattern_is_match(pattern, components[i].as_str()) {
            proof {
                lemma_remove_first_step(views(components@), hit, i as int);
            }
            let ghost before = views(components@);
            components.remove(i);
            assert(views(components@) =~= before.remove(i as int));
            return ;
        }
        i = i + 1;
    }
    proof {
        lemma_remove_first_none(views(components@), hit);
    }
}

fn remove_all_equivalent(components: &mut Vec<String>, path: &str, ids: &PathIdentities)
    ensures
        views(final(components)@) == retain(
            views(old(components)@),
            |c: Seq<char>| !ids.equivalent(c, path@),
        ),
{
    let ghost keep = |c: Seq<char>| !ids.equivalent(c, path@);
    let mut out: Vec<String> = Vec::new();
    let mut i: usize = 0;
    while i < components.len()
        invariant
            0 <= i <= components.len(),
            views(out@) == retain(views(components@).take(i as int), keep),
            keep == (|c: Seq<char>| !ids.equivalent(c, path@)),
        decreases components.len() - i,
    {
        let ghost prefix = views(components@).take(i + 1);
        assert(prefix.drop_last() =~= views(components@).take(i as int));
        if !ids.components_equivalent(components[i].as_str(), path) {
            let ghost before = views(out@);
            out.push(components[i].clone());
            assert(views(out@) =~= before.push(components@[i as int]@));
        }
        i = i + 1;
    }
    assert(views(components@).take(components.len() as int) =~= views(components@));
    *components = out;
}

fn remove_first_equivalent(components: &mut Vec<String>, path: &str, ids: &PathIdentities)
    ensures
        views(final(components)@) == remove_first(
            views(old(components)@),
            |c: Seq<char>| ids.equivalent(c, path@),
        ),
{
    let ghost hit = |c: Seq<char>| ids.equivalent(c, path@);
    let mut i: usize = 0;
    while i < components.len()
        invariant
            0 <= i <= components.len(),
            components@ == old(components)@,
            forall|j: int| 0 <= j < i ==> !hit(#[trigger] views(components@)[j]),
            hit == (|c: Seq<char>| ids.equivalent(c, path@)),
        decreases components.len() - i,
    {
        if ids.components_equivalent(components[i].as_str(), path) {
            proof {
                lemma_remove_first_step(views(components@), hit, i as int);
            }
            let ghost before = views(components@);
            components.remove(i);
            assert(views(components@) =~= before.remove(i as int));
            return ;
        }
        i = i + 1;
    }
    proof {
        lemma_remove_first_none(views(components@), hit);
    }
}

fn invalid_regex(context: &str, pattern: &str, detail: String) -> (e: PathMutationError)
    ensures
        e matches PathMutationError::InvalidRegex { context: c, pattern: p, detail: _ } && c@
            == context@ && p@ == pattern@,
{
    PathMutationError::InvalidRegex {
        context: to_owned(context),
        pattern: to_owned(pattern),
        detail,
    }
}

/// Applies one operation to `components` in place.
fn apply_op(
    components: &mut Vec<String>,
    kind: SinglePathOpKind,
    operand: &str,
    context: &str,
    ids: &PathIdentities,
) -> (r: Result<(), PathMutationError>)
    ensures
        match single_op(views(old(components)@), kind, operand@, *ids) {
            Some(t) => r is Ok && views(final(components)@) == t,
            None => r matches Err(PathMutationError::InvalidRegex { context: c, pattern: p, detail: _ })
                && c@ == context@ && p@ == operand@,
        },
{
    let ghost start = views(components@);
    match kind {
        SinglePathOpKind::RemoveAll => {
            let pattern = match CompiledPattern::compile(operand) {
                Ok(p) => p,
                Err(detail) => {
                    return Err(invalid_regex(context, operand, detail));
                },
            };
            remove_all_matching(components, &pattern);
        },
        SinglePathOpKind::RemoveOne => {
            let pattern = match CompiledPattern::compile(operand) {
                Ok(p) => p,
                Err(detail) => {
                    return Err(invalid_regex(context, operand, detail));
                },
            };
            remove_first_matching(components, &pattern);
        },
        SinglePathOpKind::AppendAll => {
            remove_all_equivalent(components, operand, ids);
            let ghost mid = views(components@);
            components.push(to_owned(operand));
            assert(views(components@) =~= mid.push(operand@));
        },
        SinglePathOpKind::AppendOne => {
            remove_first_equivalent(components, operand, ids);
            let ghost mid = views(components@);
            components.push(to_owned(operand));
            assert(views(components@) =~= mid.push(operand@));
        },
        SinglePathOpKind::PrependAll => {
            remove_all_equivalent(components, operand, ids);
            let ghost mid = views(components@);
            components.insert(0, to_owned(operand));
            assert(views(components@) =~= seq![operand@] + mid);
        },
        SinglePathOpKind::PrependOne => {
            remove_first_equivalent(components, operand, ids);
            let ghost mid = views(components@);
            components.insert(0, to_owned(operand));
            assert(views(components@) =~= seq![operand@] + mid);
        },
    }
    Ok(())
}

/// The colon-separated pieces of `list`, empty pieces included.
pub fn split_colon_list(list: &str) -> (r: Vec<String>)
    ensures
        views(r@) == split_on(list@, ':'),
{
    split_str(list, ':')
}

/// The pieces joined with `:`.
pub fn join_colon_list(components: &Vec<String>) -> (r: String)
    ensures
        r@ == join_with(views(components@), ":"@),
{
    join_strings(components, ":")
}

/// Splitting a colon list and joining the pieces gives the list back.
pub proof fn lemma_colon_list_round_trip(list: Seq<char>)
    ensures
        join_with(split_on(list, ':'), ":"@) == list,
{
    reveal_strlit(":");
    assert(":"@ =~= seq![':']);
    crate::text::lemma_join_split(list, ':');
}

/// Splitting the join of one or more pieces that hold no `:` gives the
/// pieces back.
pub proof fn lemma_colon_join_round_trip(parts: Seq<Seq<char>>)
    requires
        parts.len() > 0,
        forall|i: int| 0 <= i < parts.len() ==> !(#[trigger] parts[i]).contains(':'),
    ensures
        split_on(join_with(parts, ":"@), ':') == parts,
{
    reveal_strlit(":");
    assert(":"@ =~= seq![':']);
    crate::text::lemma_split_join(parts, ':');
}

/// Applies one operation to a colon-separated list after refusing NUL in
/// the list or the operand.
pub fn apply_single_colon_list_op(
    list: &str,
    kind: SinglePathOpKind,
    operand: &str,
    context: &str,
    ids: &PathIdentities,
) -> (r: Result<String, PathMutationError>)
    ensures
        list@.contains('\0') ==> (r matches Err(PathMutationError::ListContainsNul { context: c })
            && c@ == context@),
        !list@.contains('\0') && operand@.contains('\0') ==> (r matches Err(
            PathMutationError::OperandContainsNul { context: c },
        ) && c@ == context@),
        !list@.contains('\0') && !operand@.contains('\0') ==> match single_op(
            split_on(list@, ':'),
            kind,
            operand@,
            *ids,
        ) {
            Some(t) => r is Ok && r->Ok_0@ == join_with(t, ":"@),
            None => r matches Err(PathMutationError::InvalidRegex { context: c, pattern: p, detail: _ })
                && c@ == context@ && p@ == operand@,
        },
{
    match validate_path_mutation_value(list) {
        Ok(()) => {},
        Err(PathMutationViolation::ContainsNul) => {
            return Err(PathMutationError::ListContainsNul { context: to_owned(context) });
        },
    }
    match validate_path_mutation_value(operand) {
        Ok(()) => {},
        Err(PathMutationViolation::ContainsNul) => {
            return Err(PathMutationError::OperandContainsNul { context: to_owned(context) });
        },
    }
    let mut components = split_colon_list(list);
    apply_op(&mut components, kind, operand, context, ids)?;
    Ok(join_colon_list(&components))
}

fn apply_all_of_kind(
    components: &mut Vec<String>,
    kind: SinglePathOpKind,
    ops: &Vec<String>,
    context: &str,
    ids: &PathIdentities,
) -> (r: Result<(), PathMutationError>)
    ensures
        match fold_ops(views(old(components)@), kind, views(ops@), *ids) {
            Some(t) => r is Ok && views(final(components)@) == t,
            None => r matches Err(PathMutationError::InvalidRegex { context: c, pattern: p, detail: _ })
                && c@ == context@ && !regex_accepts(p@),
        },
        r is Err ==> is_regex_kind(kind) && (r matches Err(
            PathMutationError::InvalidRegex { context: _, pattern: p, detail: _ },
        ) && first_rejected(views(ops@)) == Some(p@)),
        r is Ok && is_regex_kind(kind) ==> first_rejected(views(ops@)) is None,
{
    let ghost start = views(components@);
    let mut i: usize = 0;
    while i < ops.len()
        invariant
            0 <= i <= ops.len(),
            start == views(old(components)@),
            fold_ops(start, kind, views(ops@).take(i as int), *ids) == Some(views(components@)),
            is_regex_kind(kind) ==> forall|j: int|
                0 <= j < i ==> regex_accepts(#[trigger] views(ops@)[j]),
        decreases ops.len() - i,
    {
        let ghost before = views(components@);
        assert(views(ops@).take(i + 1).drop_last() =~= views(ops@).take(i as int));
        assert(views(ops@).take(i + 1).last() == ops@[i as int]@);
        let res = apply_op(components, kind, ops[i].as_str(), context, ids);
        match res {
            Ok(()) => {},
            Err(e) => {
                proof {
                    assert(single_op(before, kind, ops@[i as int]@, *ids) is None);
                    assert(fold_ops(start, kind, views(ops@).take(i + 1), *ids) is None);
                    lemma_fold_none_extends(start, kind, views(ops@), i as int + 1, *ids);
                    assert(!regex_accepts(ops@[i as int]@));
                    lemma_first_rejected_at(views(ops@), i as int);
                }
                return Err(e);
            },
        }
        proof {
            if is_regex_kind(kind) {
                assert(regex_accepts(views(ops@)[i as int]));
            }
        }
        i = i + 1;
    }
    assert(views(ops@).take(ops.len() as int) =~= views(ops@));
    proof {
        if is_regex_kind(kind) {
            lemma_first_rejected_none(views(ops@));
        }
    }
    Ok(())
}

/// The operations that compile a regular expression (and so can fail).
pub open spec fn is_regex_kind(kind: SinglePathOpKind) -> bool {
    kind is RemoveAll || kind is RemoveOne
}

/// The first pattern of `ops` that `regex` refuses.
pub open spec fn first_rejected(ops: Seq<Seq<char>>) -> Option<Seq<char>>
    decreases ops.len(),
{
    if ops.len() == 0 {
        None
    } else if !regex_accepts(ops[0]) {
        Some(ops[0])
    } else {
        first_rejected(ops.drop_first())
    }
}

proof fn lemma_first_rejected_at(ops: Seq<Seq<char>>, i: int)
    requires
        0 <= i < ops.len(),
        forall|j: int| 0 <= j < i ==> regex_accepts(#[trigger] ops[j]),
        !regex_accepts(ops[i]),
    ensures
        first_rejected(ops) == Some(ops[i]),
    decreases i,
{
    if i > 0 {
        let rest = ops.drop_first();
        assert(regex_accepts(ops[0]));
        assert forall|j: int| 0 <= j < i - 1 implies regex_accepts(#[trigger] rest[j]) by {
            assert(rest[j] == ops[j + 1]);
        }
        lemma_first_rejected_at(rest, i - 1);
    }
}

proof fn lemma_first_rejected_none(ops: Seq<Seq<char>>)
    requires
        forall|j: int| 0 <= j < ops.len() ==> regex_accepts(#[trigger] ops[j]),
    ensures
        first_rejected(ops) is None,
    decreases ops.len(),
{
    if ops.len() > 0 {
        let rest = ops.drop_first();
        assert(regex_accepts(ops[0]));
        assert forall|j: int| 0 <= j < rest.len() implies regex_accepts(#[trigger] rest[j]) by {
            assert(rest[j] == ops[j + 1]);
        }
        lemma_first_rejected_none(rest);
    }
}

/// The invalid pattern that stops `config`, with the context it is
/// reported under: the first refused pattern of `remove_all`, else of
/// `remove_one` (the other lists compile nothing).
pub open spec fn config_failure(config: PathMutationConfig, field_prefix: Seq<char>) -> Option<
    (Seq<char>, Seq<char>),
> {
    match first_rejected(views(config.remove_all@)) {
        Some(p) => Some((field_prefix + "."@ + "remove_all"@, p)),
        None => match first_rejected(views(config.remove_one@)) {
            Some(p) => Some((field_prefix + "."@ + "remove_one"@, p)),
            None => None,
        },
    }
}

proof fn lemma_fold_none_extends(
    s: Seq<Seq<char>>,
    kind: SinglePathOpKind,
    ops: Seq<Seq<char>>,
    k: int,
    ids: PathIdentities,
)
    requires
        0 <= k <= ops.len(),
        fold_ops(s, kind, ops.take(k), ids) is None,
    ensures
        fold_ops(s, kind, ops, ids) is None,
    decreases ops.len() - k,
{
    if k < ops.len() {
        assert(ops.take(k + 1).drop_last() =~= ops.take(k));
        lemma_fold_none_extends(s, kind, ops, k + 1, ids);
    } else {
        assert(ops.take(k) =~= ops);
    }
}

fn stage_context(field_prefix: &str, name: &str) -> (r: String)
    ensures
        r@ == field_prefix@ + "."@ + name@,
{
    concat3(field_prefix, ".", name)
}

/// Applies every list of `config` to `components`: regex removals first,
/// then appends, then prepends, each list in order.
pub fn apply_components(
    components: Vec<String>,
    config: &PathMutationConfig,
    field_prefix: &str,
    ids: &PathIdentities,
) -> (r: Result<Vec<String>, PathMutationError>)
    ensures
        match apply_config(views(components@), *config, *ids) {
            Some(t) => r is Ok && views(r->Ok_0@) == t,
            None => r matches Err(PathMutationError::InvalidRegex { context: _, pattern: p, detail: _ })
                && !regex_accepts(p@),
        },
        match config_failure(*config, field_prefix@) {
            Some((c, p)) => r matches Err(
                PathMutationError::InvalidRegex { context: ec, pattern: ep, detail: _ },
            ) && ec@ == c && ep@ == p,
            None => r is Ok,
        },
{
    let mut components = components;
    let c = stage_context(field_prefix, "remove_all");
    apply_all_of_kind(&mut components, SinglePathOpKind::RemoveAll, &config.remove_all, c.as_str(), ids)?;
    let c = stage_context(field_prefix, "remove_one");
    apply_all_of_kind(&mut components, SinglePathOpKind::RemoveOne, &config.remove_one, c.as_str(), ids)?;
    let c = stage_context(field_prefix, "append_all");
    apply_all_of_kind(&mut components, SinglePathOpKind::AppendAll, &config.append_all, c.as_str(), ids)?;
    let c = stage_context(field_prefix, "append_one");
    apply_all_of_kind(&mut components, SinglePathOpKind::AppendOne, &config.append_one, c.as_str(), ids)?;
    let c = stage_context(field_prefix, "prepend_all");
    apply_all_of_kind(&mut components, SinglePathOpKind::PrependAll, &config.prepend_all, c.as_str(), ids)?;
    let c = stage_context(field_prefix, "prepend_one");
    apply_all_of_kind(&mut components, SinglePathOpKind::PrependOne, &config.prepend_one, c.as_str(), ids)?;
    Ok(components)
}

/// The entries of a PATH value: none when PATH is unset, otherwise its
/// colon-separated pieces (`std::env::split_paths` on Unix).
pub open spec fn runtime_components(base_path: Option<Seq<char>>) -> Seq<Seq<char>> {
    match base_path {
        None => Seq::empty(),
        Some(p) => split_on(p, ':'),
    }
}

pub open spec fn any_contains_colon(s: Seq<Seq<char>>) -> bool {
    exists|i: int| 0 <= i < s.len() && (#[trigger] s[i]).contains(':')
}

/// Applies `config` to the PATH value `base_path` and joins the result
/// (`std::env::join_paths` on Unix refuses an entry holding `:`).
pub fn apply_runtime_path(
    base_path: Option<&str>,
    config: &PathMutationConfig,
    ids: &PathIdentities,
) -> (r: Result<String, PathMutationError>)
    ensures
        match apply_config(
            runtime_components(crate::journal_validation::opt_view(base_path)),
            *config,
            *ids,
        ) {
            Some(t) => if any_contains_colon(t) {
                r == Err::<String, PathMutationError>(PathMutationError::ComponentContainsColon)
            } else {
                r is Ok && r->Ok_0@ == join_with(t, ":"@)
            },
            None => r matches Err(PathMutationError::InvalidRegex { context: _, pattern: p, detail: _ })
                && !regex_accepts(p@),
        },
        config_failure(*config, "path"@) matches Some((c, p)) ==> (r matches Err(
            PathMutationError::InvalidRegex { context: ec, pattern: ep, detail: _ },
        ) && ec@ == c && ep@ == p),
{
    let components = match base_path {
        None => Vec::new(),
        Some(p) => split_colon_list(p),
    };
    assert(views(components@) == runtime_components(crate::journal_validation::opt_view(base_path)));
    let components = apply_components(components, config, "path", ids)?;
    let mut i: usize = 0;
    while i < components.len()
        invariant
            0 <= i <= components.len(),
            forall|j: int| 0 <= j < i ==> !(#[trigger] views(components@)[j]).contains(':'),
            config_failure(*config, "path"@) is None,
            apply_config(
                runtime_components(crate::journal_validation::opt_view(base_path)),
                *config,
                *ids,
            ) == Some(views(components@)),
        decreases components.len() - i,
    {
        if crate::text::contains_char(components[i].as_str(), ':') {
            assert(views(components@)[i as int].contains(':'));
            return Err(PathMutationError::ComponentContainsColon);
        }
        i = i + 1;
    }
    Ok(join_colon_list(&components))
}

/// Keeping the entries that `keep` holds of is `Seq::filter`.
pub proof fn lemma_retain_is_filter(s: Seq<Seq<char>>, keep: spec_fn(Seq<char>) -> bool)
    ensures
        retain(s, keep) == s.filter(keep),
    decreases s.len(),
{
    reveal(Seq::filter);
    if s.len() > 0 {
        lemma_retain_is_filter(s.drop_last(), keep);
    }
}

/// A regex removal keeps, in order, exactly the entries the pattern does not
/// match; an invalid pattern changes nothing and is refused.
pub proof fn lemma_regex_removals(s: Seq<Seq<char>>, pattern: Seq<char>, ids: PathIdentities)
    ensures
        regex_accepts(pattern) ==> single_op(s, SinglePathOpKind::RemoveAll, pattern, ids) == Some(
            s.filter(|c: Seq<char>| !regex_matches(pattern, c)),
        ),
        regex_accepts(pattern) && (forall|j: int|
            0 <= j < s.len() ==> !regex_matches(pattern, #[trigger] s[j])) ==> single_op(
            s,
            SinglePathOpKind::RemoveOne,
            pattern,
            ids,
        ) == Some(s),
        !regex_accepts(pattern) ==> single_op(s, SinglePathOpKind::RemoveAll, pattern, ids) is None
            && single_op(s, SinglePathOpKind::RemoveOne, pattern, ids) is None,
{
    let unmatched = |c: Seq<char>| !regex_matches(pattern, c);
    lemma_retain_is_filter(s, unmatched);
    lemma_remove_first_none_if(s, |c: Seq<char>| regex_matches(pattern, c));
}

proof fn lemma_remove_first_none_if(s: Seq<Seq<char>>, hit: spec_fn(Seq<char>) -> bool)
    ensures
        (forall|j: int| 0 <= j < s.len() ==> !hit(#[trigger] s[j])) ==> remove_first(s, hit) == s,
{
    if forall|j: int| 0 <= j < s.len() ==> !hit(#[trigger] s[j]) {
        lemma_remove_first_none(s, hit);
    }
}

/// `RemoveOne` drops the first entry the pattern matches, and only it.
pub proof fn lemma_remove_one_drops_first_match(
    s: Seq<Seq<char>>,
    pattern: Seq<char>,
    ids: PathIdentities,
    i: int,
)
    requires
        regex_accepts(pattern),
        0 <= i < s.len(),
        regex_matches(pattern, s[i]),
        forall|j: int| 0 <= j < i ==> !regex_matches(pattern, #[trigger] s[j]),
    ensures
        single_op(s, SinglePathOpKind::RemoveOne, pattern, ids) == Some(s.remove(i)),
{
    let hit = |c: Seq<char>| regex_matches(pattern, c);
    assert forall|j: int| 0 <= j < i implies !hit(#[trigger] s[j]) by {}
    lemma_remove_first_step(s, hit, i);
}

/// `AppendAll` and `PrependAll` put the operand last or first and keep, in
/// order, exactly the entries that name another directory.
pub proof fn lemma_all_ops_move_operand(s: Seq<Seq<char>>, operand: Seq<char>, ids: PathIdentities)
    ensures
        single_op(s, SinglePathOpKind::AppendAll, operand, ids) == Some(
            s.filter(|c: Seq<char>| !ids.equivalent(c, operand)).push(operand),
        ),
        single_op(s, SinglePathOpKind::PrependAll, operand, ids) == Some(
            seq![operand] + s.filter(|c: Seq<char>| !ids.equivalent(c, operand)),
        ),
{
    lemma_retain_is_filter(s, |c: Seq<char>| !ids.equivalent(c, operand));
}

/// `AppendOne` and `PrependOne` remove the first entry that names the
/// operand's directory and put the operand last or first; the rest keeps
/// its order.
pub proof fn lemma_one_ops_move_first_equivalent(
    s: Seq<Seq<char>>,
    operand: Seq<char>,
    ids: PathIdentities,
    i: int,
)
    requires
        0 <= i < s.len(),
        ids.equivalent(s[i], operand),
        forall|j: int| 0 <= j < i ==> !ids.equivalent(#[trigger] s[j], operand),
    ensures
        single_op(s, SinglePathOpKind::PrependOne, operand, ids) == Some(seq![operand] + s.remove(i)),
        single_op(s, SinglePathOpKind::AppendOne, operand, ids) == Some(s.remove(i).push(operand)),
{
    let hit = |c: Seq<char>| ids.equivalent(c, operand);
    assert forall|j: int| 0 <= j < i implies !hit(#[trigger] s[j]) by {}
    lemma_remove_first_step(s, hit, i);
}

/// Without an entry naming the operand's directory, `AppendOne` and
/// `PrependOne` only add the operand.
pub proof fn lemma_one_ops_without_equivalent(s: Seq<Seq<char>>, operand: Seq<char>, ids: PathIdentities)
    requires
        forall|j: int| 0 <= j < s.len() ==> !ids.equivalent(#[trigger] s[j], operand),
    ensures
        single_op(s, SinglePathOpKind::PrependOne, operand, ids) == Some(seq![operand] + s),
        single_op(s, SinglePathOpKind::AppendOne, operand, ids) == Some(s.push(operand)),
{
    let hit = |c: Seq<char>| ids.equivalent(c, operand);
    assert forall|j: int| 0 <= j < s.len() implies !hit(#[trigger] s[j]) by {}
    lemma_remove_first_none(s, hit);
}

/// After a valid `RemoveAll`, no entry matches the pattern.
pub proof fn lemma_remove_all_leaves_no_match(
    s: Seq<Seq<char>>,
    pattern: Seq<char>,
    ids: PathIdentities,
)
    requires
        regex_accepts(pattern),
    ensures
        single_op(s, SinglePathOpKind::RemoveAll, pattern, ids) matches Some(t) && forall|i: int|
            0 <= i < t.len() ==> !regex_matches(pattern, #[trigger] t[i]),
{
    lemma_retain_keeps(s, |c: Seq<char>| !regex_matches(pattern, c));
}

/// After `AppendAll`, the operand is last and no earlier entry names the
/// same directory.
pub proof fn lemma_append_all_dedups(s: Seq<Seq<char>>, operand: Seq<char>, ids: PathIdentities)
    ensures
        single_op(s, SinglePathOpKind::AppendAll, operand, ids) matches Some(t) && t.last()
            == operand && forall|i: int|
            0 <= i < t.len() - 1 ==> !ids.equivalent(#[trigger] t[i], operand),
{
    let keep = |c: Seq<char>| !ids.equivalent(c, operand);
    lemma_retain_keeps(s, keep);
    let t = retain(s, keep).push(operand);
    assert forall|i: int| 0 <= i < t.len() - 1 implies !ids.equivalent(#[trigger] t[i], operand) by {
        assert(t[i] == retain(s, keep)[i]);
        assert(keep(retain(s, keep)[i]));
    }
}

} // verus!
