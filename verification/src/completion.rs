//! Bash completion through a script function: which script and function
//! serve an alias, and how the function's answer becomes candidates.
//! Compiling and running the script stays with the caller.
use crate::manifest::Manifest;
use crate::rhai_facade_validation::ScriptValue;
use crate::text::{contains_char, to_owned, views};
use vstd::prelude::*;

verus! {

#[derive(Debug, Clone, Copy, PartialEq, Eq, Structural)]
pub enum CompletionError {
    NoBashcomp,
    NoRhaiScript,
    NotAnArray,
    NonStringCandidate,
}

impl CompletionError {
    pub open spec fn spec_message(&self) -> Seq<char> {
        match self {
            CompletionError::NoBashcomp => "alias has no [bashcomp] configuration"@,
            CompletionError::NoRhaiScript => "alias has no bashcomp.rhai_script configured"@,
            CompletionError::NotAnArray => "completion function must return an array"@,
            CompletionError::NonStringCandidate => "all values returned by the completion function must be strings"@,
        }
    }

    pub fn message(&self) -> (r: String)
        ensures
            r@ == self.spec_message(),
    {
        match self {
            CompletionError::NoBashcomp => to_owned("alias has no [bashcomp] configuration"),
            CompletionError::NoRhaiScript => to_owned("alias has no bashcomp.rhai_script configured"),
            CompletionError::NotAnArray => to_owned("completion function must return an array"),
            CompletionError::NonStringCandidate => to_owned(
                "all values returned by the completion function must be strings",
            ),
        }
    }
}

/// The script and the function in it that complete an alias.
#[derive(Debug, Clone, PartialEq, Eq)]
pub struct CompletionTarget {
    pub script: String,
    pub function: String,
}

/// The completion script of an alias and its function (`complete` unless
/// configured), or why there is none.
pub fn completion_target(manifest: &Manifest) -> (r: Result<CompletionTarget, CompletionError>)
    ensures
        match manifest.bashcomp {
            None => r == Err::<CompletionTarget, CompletionError>(CompletionError::NoBashcomp),
            Some(b) => match b.rhai_script {
                None => r == Err::<CompletionTarget, CompletionError>(CompletionError::NoRhaiScript),
                Some(s) => r matches Ok(t) && t.script@ == s@ && t.function@ == match b.rhai_function {
                    Some(f) => f@,
                    None => "complete"@,
                },
            },
        },
{
    let bashcomp = match &manifest.bashcomp {
        None => {
            return Err(CompletionError::NoBashcomp);
        },
        Some(b) => b,
    };
    let script = match &bashcomp.rhai_script {
        None => {
            return Err(CompletionError::NoRhaiScript);
        },
        Some(s) => s,
    };
    let function = match &bashcomp.rhai_function {
        Some(f) => f.clone(),
        None => to_owned("complete"),
    };
    Ok(CompletionTarget { script: script.clone(), function })
}

/// The word being completed: `words[cword]`, or empty past the end.
pub fn completion_current_word(words: &Vec<String>, cword: usize) -> (r: String)
    ensures
        r@ == if cword < words.len() {
            words@[cword as int]@
        } else {
            Seq::<char>::empty()
        },
{
    if cword < words.len() {
        words[cword].clone()
    } else {
        String::new()
    }
}

/// What the completion function returned.
#[derive(Debug, Clone, PartialEq, Eq)]
pub enum CompletionReply {
    Array(Vec<ScriptValue>),
    Other,
}

/// The candidates of a reply: every entry must be a string; those holding
/// NUL are dropped.
pub open spec fn candidates_result(values: Seq<ScriptValue>) -> Result<Seq<Seq<char>>, CompletionError>
    decreases values.len(),
{
    if values.len() == 0 {
        Ok(Seq::empty())
    } else {
        match candidates_result(values.drop_last()) {
            Err(e) => Err(e),
            Ok(prev) => match values.last() {
                ScriptValue::Other => Err(CompletionError::NonStringCandidate),
                ScriptValue::Text(s) => if s@.contains('\0') {
                    Ok(prev)
                } else {
                    Ok(prev.push(s@))
                },
            },
        }
    }
}

proof fn lemma_candidates_err_sticks(s: Seq<ScriptValue>, k: int)
    requires
        0 <= k <= s.len(),
        candidates_result(s.take(k)) is Err,
    ensures
        candidates_result(s) == candidates_result(s.take(k)),
    decreases s.len() - k,
{
    if k == s.len() {
        assert(s.take(k) =~= s);
    } else {
        assert(s.drop_last().take(k) =~= s.take(k));
        lemma_candidates_err_sticks(s.drop_last(), k);
    }
}

/// Candidates never hold NUL: such entries are dropped, not passed on.
pub proof fn lemma_candidates_have_no_nul(values: Seq<ScriptValue>)
    ensures
        candidates_result(values) matches Ok(c) ==> forall|i: int|
            0 <= i < c.len() ==> !(#[trigger] c[i]).contains('\0'),
    decreases values.len(),
{
    if values.len() > 0 {
        lemma_candidates_have_no_nul(values.drop_last());
    }
}

pub fn parse_candidates(reply: &CompletionReply) -> (r: Result<Vec<String>, CompletionError>)
    ensures
        match *reply {
            CompletionReply::Other => r == Err::<Vec<String>, CompletionError>(CompletionError::NotAnArray),
            CompletionReply::Array(values) => match (r, candidates_result(values@)) {
                (Ok(out), Ok(expected)) => views(out@) == expected,
                (Err(e), Err(expected)) => e == expected,
                _ => false,
            },
        },
{
    let values = match reply {
        CompletionReply::Other => {
            return Err(CompletionError::NotAnArray);
        },
        CompletionReply::Array(v) => v,
    };
    let mut out: Vec<String> = Vec::new();
    let mut i: usize = 0;
    assert(values@.take(0) =~= Seq::<ScriptValue>::empty());
    assert(views(out@) =~= Seq::<Seq<char>>::empty());
    while i < values.len()
        invariant
            0 <= i <= values.len(),
            *reply == CompletionReply::Array(*values),
            candidates_result(values@.take(i as int)) == Ok::<Seq<Seq<char>>, CompletionError>(
                views(out@),
            ),
        decreases values.len() - i,
    {
        assert(values@.take(i + 1).drop_last() =~= values@.take(i as int));
        assert(values@.take(i + 1).last() == values@[i as int]);
        match &values[i] {
            ScriptValue::Other => {
                proof {
                    lemma_candidates_err_sticks(values@, i + 1);
                }
                return Err(CompletionError::NonStringCandidate);
            },
            ScriptValue::Text(s) => {
                if !contains_char(s.as_str(), '\0') {
                    let ghost prev = views(out@);
                    out.push(s.clone());
                    assert(views(out@) =~= prev.push(s@));
                }
            },
        }
        i = i + 1;
    }
    assert(values@.take(values.len() as int) =~= values@);
    Ok(out)
}

} // verus!
