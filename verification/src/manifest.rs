//! The resolved alias model (`Manifest`) and how an invocation is assembled
//! from it, the runtime arguments and an optional reconcile patch.
use crate::env_map::StringMap;
use crate::path_mutation::{retain, PathMutationConfig};
use crate::text::{clone_strings, extend_strings, views};
use vstd::prelude::*;

verus! {

#[derive(Debug, PartialEq, Eq)]
pub struct JournalConfig {
    pub namespace: String,
    pub stderr: bool,
    pub identifier: Option<String>,
    pub user_scope: bool,
    pub ensure: bool,
}

#[derive(Debug, PartialEq, Eq)]
pub struct ReconcileConfig {
    pub script: String,
    pub function: String,
}

#[derive(Debug, PartialEq, Eq)]
pub struct BashcompConfig {
    pub disabled: bool,
    pub passthrough: bool,
    pub script: Option<String>,
    pub rhai_script: Option<String>,
    pub rhai_function: Option<String>,
}

pub fn clone_opt_string(o: &Option<String>) -> (r: Option<String>)
    ensures
        r == *o,
{
    match o {
        Some(s) => Some(s.clone()),
        None => None,
    }
}

impl Clone for JournalConfig {
    fn clone(&self) -> (r: Self)
        ensures
            r == *self,
    {
        JournalConfig {
            namespace: self.namespace.clone(),
            stderr: self.stderr,
            identifier: clone_opt_string(&self.identifier),
            user_scope: self.user_scope,
            ensure: self.ensure,
        }
    }
}

impl Clone for ReconcileConfig {
    fn clone(&self) -> (r: Self)
        ensures
            r == *self,
    {
        ReconcileConfig { script: self.script.clone(), function: self.function.clone() }
    }
}

impl Clone for BashcompConfig {
    fn clone(&self) -> (r: Self)
        ensures
            r == *self,
    {
        BashcompConfig {
            disabled: self.disabled,
            passthrough: self.passthrough,
            script: clone_opt_string(&self.script),
            rhai_script: clone_opt_string(&self.rhai_script),
            rhai_function: clone_opt_string(&self.rhai_function),
        }
    }
}

/// A resolved alias: what to run and how.
#[derive(Debug, Clone, PartialEq, Eq)]
pub struct Manifest {
    pub executable: String,
    pub args: Vec<String>,
    pub env: StringMap,
    pub env_remove: Vec<String>,
    pub path: Option<PathMutationConfig>,
    pub journal: Option<JournalConfig>,
    pub reconcile: Option<ReconcileConfig>,
    pub bashcomp: Option<BashcompConfig>,
}

/// Changes a reconcile script asks for at run time.
#[derive(Debug, Clone, PartialEq, Eq)]
pub struct RuntimePatch {
    pub replace_args: Option<Vec<String>>,
    pub append_args: Vec<String>,
    pub set_env: StringMap,
    pub remove_env: Vec<String>,
}

impl Default for RuntimePatch {
    fn default() -> (r: Self)
        ensures
            r.replace_args is None,
            r.append_args@.len() == 0,
            r.set_env@ == Map::<Seq<char>, Seq<char>>::empty(),
            r.remove_env@.len() == 0,
    {
        RuntimePatch {
            replace_args: None,
            append_args: Vec::new(),
            set_env: StringMap::new(),
            remove_env: Vec::new(),
        }
    }
}

/// What is finally executed.
#[derive(Debug, Clone, PartialEq, Eq)]
pub struct Invocation {
    pub executable: String,
    pub args: Vec<String>,
    pub env: StringMap,
    pub env_remove: Vec<String>,
    pub journal: Option<JournalConfig>,
}

impl Manifest {
    /// A manifest that runs `exec` with nothing else configured.
    pub fn simple(executable: String) -> (m: Self)
        ensures
            m.executable == executable,
            m.args@.len() == 0,
            m.env@ == Map::<Seq<char>, Seq<char>>::empty(),
            m.env_remove@.len() == 0,
            m.path is None,
            m.journal is None,
            m.reconcile is None,
            m.bashcomp is None,
    {
        Manifest {
            executable,
            args: Vec::new(),
            env: StringMap::new(),
            env_remove: Vec::new(),
            path: None,
            journal: None,
            reconcile: None,
            bashcomp: None,
        }
    }

    pub fn with_args(self, args: Vec<String>) -> (m: Self)
        ensures
            m.args == args,
            m.executable == self.executable,
            m.env == self.env,
            m.env_remove == self.env_remove,
            m.journal == self.journal,
            m.reconcile == self.reconcile,
            m.bashcomp == self.bashcomp,
            m.path == self.path,
    {
        let mut m = self;
        m.args = args;
        m
    }

    pub fn with_journal(self, journal: JournalConfig) -> (m: Self)
        ensures
            m.journal == Some(journal),
            m.executable == self.executable,
            m.args == self.args,
            m.env == self.env,
            m.env_remove == self.env_remove,
            m.reconcile == self.reconcile,
            m.bashcomp == self.bashcomp,
            m.path == self.path,
    {
        let mut m = self;
        m.journal = Some(journal);
        m
    }

    pub fn with_reconcile(self, reconcile: ReconcileConfig) -> (m: Self)
        ensures
            m.reconcile == Some(reconcile),
            m.executable == self.executable,
            m.args == self.args,
            m.env == self.env,
            m.env_remove == self.env_remove,
            m.journal == self.journal,
            m.bashcomp == self.bashcomp,
            m.path == self.path,
    {
        let mut m = self;
        m.reconcile = Some(reconcile);
        m
    }

    /// Alias args, then runtime args; a patch may replace them all and then
    /// append. Patch `set_env` entries override alias env and take their keys
    /// off the alias `env_remove`; patch `remove_env` is added after. The
    /// removal list is de-duplicated and its keys leave the environment.
    pub fn build_invocation(&self, runtime_args: &Vec<String>, patch: Option<RuntimePatch>) -> (inv:
        Invocation)
        ensures
            inv.executable == self.executable,
            inv.journal == self.journal,
            views(inv.args@) == spec_args(views(self.args@), views(runtime_args@), patch),
            views(inv.env_remove@) == dedupe(spec_remove(views(self.env_remove@), patch)),
            inv.env@ == without_keys(
                spec_env(self.env@, patch),
                dedupe(spec_remove(views(self.env_remove@), patch)),
            ),
    {
        let mut args = clone_strings(&self.args);
        extend_strings(&mut args, runtime_args);
        let mut env = self.env.clone();
        let mut env_remove = clone_strings(&self.env_remove);
        match patch {
            Some(patch) => {
                if let Some(replace) = patch.replace_args {
                    args = replace;
                }
                extend_strings(&mut args, &patch.append_args);
                let n = patch.set_env.len();
                let ghost env0 = env@;
                let ghost rem0 = views(env_remove@);
                proof {
                    let pm0 = crate::env_map::pairs_map(patch.set_env.pairs().take(0));
                    assert(pm0 == Map::<Seq<char>, Seq<char>>::empty());
                    lemma_retain_all(rem0, |k: Seq<char>| !pm0.contains_key(k));
                    assert(env0.union_prefer_right(pm0) =~= env0);
                }
                let mut i: usize = 0;
                while i < n
                    invariant
                        0 <= i <= n,
                        n == patch.set_env.pairs().len(),
                        env@ == env0.union_prefer_right(
                            crate::env_map::pairs_map(patch.set_env.pairs().take(i as int)),
                        ),
                        views(env_remove@) == retain(
                            rem0,
                            |k: Seq<char>|
                                !crate::env_map::pairs_map(
                                    patch.set_env.pairs().take(i as int),
                                ).contains_key(k),
                        ),
                    decreases n - i,
                {
                    let (key, value) = patch.set_env.entry(i);
                    let ghost before = views(env_remove@);
                    env_remove = retain_other_keys(&env_remove, key.as_str());
                    env.insert(key.clone(), value.clone());
                    proof {
                        let pm = crate::env_map::pairs_map(patch.set_env.pairs().take(i as int));
                        let pm2 = crate::env_map::pairs_map(patch.set_env.pairs().take(i + 1));
                        assert(patch.set_env.pairs().take(i + 1).drop_last() =~= patch.set_env.pairs().take(
                            i as int,
                        ));
                        assert(pm2 == pm.insert(key@, value@));
                        assert(env@ =~= env0.union_prefer_right(pm2));
                        let f0 = |k: Seq<char>| !pm.contains_key(k);
                        let fq = |k: Seq<char>| k != key@;
                        let f1 = |k: Seq<char>| !pm2.contains_key(k);
                        let f2 = |k: Seq<char>| !pm.insert(key@, value@).contains_key(k);
                        assert(f1 =~= f2);
                        assert(before == retain(rem0, f0));
                        assert(views(env_remove@) == retain(before, fq));
                        lemma_retain_retain(rem0, f0, fq, f2);
                        assert(views(env_remove@) == retain(rem0, f2));
                        assert(views(env_remove@) == retain(rem0, f1));
                        assert(views(env_remove@) == retain(
                            rem0,
                            |k: Seq<char>|
                                !crate::env_map::pairs_map(
                                    patch.set_env.pairs().take(i + 1),
                                ).contains_key(k),
                        ));
                    }
                    i = i + 1;
                }
                proof {
                    assert(patch.set_env.pairs().take(n as int) =~= patch.set_env.pairs());
                }
                extend_strings(&mut env_remove, &patch.remove_env);
            },
            None => {},
        }
        let env_remove = dedupe_preserving_order(env_remove);
        let ghost env1 = env@;
        let mut i: usize = 0;
        while i < env_remove.len()
            invariant
                0 <= i <= env_remove.len(),
                env@ == without_keys(env1, views(env_remove@).take(i as int)),
            decreases env_remove.len() - i,
        {
            let ghost before = env@;
            env.remove(env_remove[i].as_str());
            proof {
                let d = views(env_remove@);
                assert(d.take(i + 1) =~= d.take(i as int).push(d[i as int]));
                assert forall|k: Seq<char>| #[trigger] d.take(i + 1).contains(k) <==> (d.take(
                    i as int,
                ).contains(k) || k == d[i as int]) by {
                    if d.take(i + 1).contains(k) {
                        let j = choose|j: int| 0 <= j < i + 1 && #[trigger] d.take(i + 1)[j] == k;
                        if j < i {
                            assert(d.take(i as int)[j] == k);
                        }
                    }
                    if d.take(i as int).contains(k) {
                        let j = choose|j: int| 0 <= j < i && #[trigger] d.take(i as int)[j] == k;
                        assert(d.take(i + 1)[j] == k);
                    }
                    if k == d[i as int] {
                        assert(d.take(i + 1)[i as int] == k);
                    }
                }
                assert(env@ =~= without_keys(env1, d.take(i + 1)));
            }
            i = i + 1;
        }
        assert(views(env_remove@).take(env_remove.len() as int) =~= views(env_remove@));
        Invocation {
            executable: self.executable.clone(),
            args,
            env,
            env_remove,
            journal: clone_opt_journal(&self.journal),
        }
    }
}

fn clone_opt_journal(o: &Option<JournalConfig>) -> (r: Option<JournalConfig>)
    ensures
        r == *o,
{
    match o {
        Some(j) => Some(j.clone()),
        None => None,
    }
}

pub open spec fn spec_args(
    alias_args: Seq<Seq<char>>,
    runtime_args: Seq<Seq<char>>,
    patch: Option<RuntimePatch>,
) -> Seq<Seq<char>> {
    let base = alias_args + runtime_args;
    match patch {
        None => base,
        Some(p) => {
            let replaced = match p.replace_args {
                Some(r) => views(r@),
                None => base,
            };
            replaced + views(p.append_args@)
        },
    }
}

pub open spec fn spec_env(alias_env: Map<Seq<char>, Seq<char>>, patch: Option<RuntimePatch>) -> Map<
    Seq<char>,
    Seq<char>,
> {
    match patch {
        None => alias_env,
        Some(p) => alias_env.union_prefer_right(p.set_env@),
    }
}

pub open spec fn spec_remove(alias_remove: Seq<Seq<char>>, patch: Option<RuntimePatch>) -> Seq<
    Seq<char>,
> {
    match patch {
        None => alias_remove,
        Some(p) => retain(alias_remove, |k: Seq<char>| !p.set_env@.contains_key(k)) + views(
            p.remove_env@,
        ),
    }
}

/// `m` without the keys that occur in `keys`.
pub open spec fn without_keys(m: Map<Seq<char>, Seq<char>>, keys: Seq<Seq<char>>) -> Map<
    Seq<char>,
    Seq<char>,
> {
    Map::new(|k: Seq<char>| m.contains_key(k) && !keys.contains(k), |k: Seq<char>| m[k])
}

/// First occurrences only, in order.
pub open spec fn dedupe(s: Seq<Seq<char>>) -> Seq<Seq<char>>
    decreases s.len(),
{
    if s.len() == 0 {
        s
    } else {
        let d = dedupe(s.drop_last());
        if d.contains(s.last()) {
            d
        } else {
            d.push(s.last())
        }
    }
}

/// Removing duplicates keeps every key that occurs, adds none, and leaves each key once.
pub proof fn lemma_dedupe(s: Seq<Seq<char>>)
    ensures
        forall|i: int, j: int| 0 <= i < j < dedupe(s).len() ==> dedupe(s)[i] != dedupe(s)[j],
        forall|k: Seq<char>| #[trigger] dedupe(s).contains(k) <==> s.contains(k),
    decreases s.len(),
{
    if s.len() > 0 {
        let t = s.drop_last();
        let x = s.last();
        lemma_dedupe(t);
        let d = dedupe(t);
        assert(t.push(x) =~= s);
        assert forall|k: Seq<char>| #[trigger] dedupe(s).contains(k) <==> s.contains(k) by {
            lemma_push_contains(t, x, k);
            lemma_push_contains(d, x, k);
        }
        if !d.contains(x) {
            assert forall|i: int, j: int| 0 <= i < j < dedupe(s).len() implies dedupe(s)[i]
                != dedupe(s)[j] by {
                if j == d.len() {
                    assert(dedupe(s)[j] == x);
                    assert(dedupe(s)[i] == d[i]);
                }
            }
        }
    }
}

fn retain_other_keys(v: &Vec<String>, key: &str) -> (r: Vec<String>)
    ensures
        views(r@) == retain(views(v@), |k: Seq<char>| k != key@),
{
    let ghost keep = |k: Seq<char>| k != key@;
    let mut out: Vec<String> = Vec::new();
    let mut i: usize = 0;
    while i < v.len()
        invariant
            0 <= i <= v.len(),
            views(out@) == retain(views(v@).take(i as int), keep),
            keep == (|k: Seq<char>| k != key@),
        decreases v.len() - i,
    {
        assert(views(v@).take(i + 1).drop_last() =~= views(v@).take(i as int));
        if !crate::text::str_eq(v[i].as_str(), key) {
            let ghost before = views(out@);
            out.push(v[i].clone());
            assert(views(out@) =~= before.push(v@[i as int]@));
        }
        i = i + 1;
    }
    assert(views(v@).take(v.len() as int) =~= views(v@));
    out
}

proof fn lemma_retain_retain(
    s: Seq<Seq<char>>,
    p: spec_fn(Seq<char>) -> bool,
    q: spec_fn(Seq<char>) -> bool,
    pq: spec_fn(Seq<char>) -> bool,
)
    requires
        forall|x: Seq<char>| #[trigger] pq(x) == (p(x) && q(x)),
    ensures
        retain(retain(s, p), q) == retain(s, pq),
    decreases s.len(),
{
    if s.len() > 0 {
        lemma_retain_retain(s.drop_last(), p, q, pq);
        let x = s.last();
        assert(pq(x) == (p(x) && q(x)));
        let rp = retain(s.drop_last(), p);
        if p(x) {
            assert(retain(s, p) == rp.push(x));
            assert(rp.push(x).drop_last() =~= rp);
            assert(rp.push(x).last() == x);
        } else {
            assert(retain(s, p) == rp);
        }
    }
}

proof fn lemma_retain_all(s: Seq<Seq<char>>, keep: spec_fn(Seq<char>) -> bool)
    requires
        forall|x: Seq<char>| #[trigger] keep(x),
    ensures
        retain(s, keep) == s,
    decreases s.len(),
{
    if s.len() > 0 {
        lemma_retain_all(s.drop_last(), keep);
        assert(s.drop_last().push(s.last()) =~= s);
    }
}

proof fn lemma_push_contains(t: Seq<Seq<char>>, x: Seq<char>, k: Seq<char>)
    ensures
        t.push(x).contains(k) <==> (t.contains(k) || k == x),
{
    if t.push(x).contains(k) {
        let j = choose|j: int| 0 <= j < t.push(x).len() && #[trigger] t.push(x)[j] == k;
        if j < t.len() {
            assert(t[j] == k);
        }
    }
    if t.contains(k) {
        let j = choose|j: int| 0 <= j < t.len() && #[trigger] t[j] == k;
        assert(t.push(x)[j] == k);
    }
    if k == x {
        assert(t.push(x)[t.len() as int] == k);
    }
}

/// Values in first-occurrence order, each kept once.
pub fn dedupe_preserving_order(values: Vec<String>) -> (r: Vec<String>)
    ensures
        views(r@) == dedupe(views(values@)),
{
    let mut out: Vec<String> = Vec::new();
    let mut i: usize = 0;
    while i < values.len()
        invariant
            0 <= i <= values.len(),
            views(out@) == dedupe(views(values@).take(i as int)),
        decreases values.len() - i,
    {
        assert(views(values@).take(i + 1).drop_last() =~= views(values@).take(i as int));
        let mut seen = false;
        let mut j: usize = 0;
        while j < out.len()
            invariant
                0 <= j <= out.len(),
                i < values.len(),
                seen == exists|k: int| 0 <= k < j && #[trigger] views(out@)[k] == values@[i as int]@,
            decreases out.len() - j,
        {
            if crate::text::str_eq(out[j].as_str(), values[i].as_str()) {
                assert(views(out@)[j as int] == values@[i as int]@);
                seen = true;
            }
            j = j + 1;
        }
        proof {
            if views(out@).contains(values@[i as int]@) {
                let k = choose|k: int| 0 <= k < views(out@).len() && #[trigger] views(out@)[k]
                    == values@[i as int]@;
            }
        }
        if !seen {
            let ghost before = views(out@);
            out.push(values[i].clone());
            assert(views(out@) =~= before.push(values@[i as int]@));
        }
        i = i + 1;
    }
    assert(views(values@).take(values.len() as int) =~= views(values@));
    out
}

/// No key of the invocation's removal list survives in its environment, and
/// that list holds each key once.
pub proof fn lemma_removed_keys_absent(
    alias_env: Map<Seq<char>, Seq<char>>,
    alias_remove: Seq<Seq<char>>,
    patch: Option<RuntimePatch>,
)
    ensures
        forall|i: int|
            0 <= i < dedupe(spec_remove(alias_remove, patch)).len() ==> !without_keys(
                spec_env(alias_env, patch),
                dedupe(spec_remove(alias_remove, patch)),
            ).contains_key(#[trigger] dedupe(spec_remove(alias_remove, patch))[i]),
        forall|i: int, j: int|
            0 <= i < j < dedupe(spec_remove(alias_remove, patch)).len() ==> dedupe(
                spec_remove(alias_remove, patch),
            )[i] != dedupe(spec_remove(alias_remove, patch))[j],
{
    lemma_dedupe(spec_remove(alias_remove, patch));
}

/// A key the patch sets and does not also remove reaches the environment
/// with the patch's value, whatever the alias env and `env_remove` said.
pub proof fn lemma_patch_set_env_wins(
    alias_env: Map<Seq<char>, Seq<char>>,
    alias_remove: Seq<Seq<char>>,
    patch: RuntimePatch,
    key: Seq<char>,
)
    requires
        patch.set_env@.contains_key(key),
        !views(patch.remove_env@).contains(key),
    ensures
        without_keys(
            spec_env(alias_env, Some(patch)),
            dedupe(spec_remove(alias_remove, Some(patch))),
        ).contains_key(key),
        without_keys(
            spec_env(alias_env, Some(patch)),
            dedupe(spec_remove(alias_remove, Some(patch))),
        )[key] == patch.set_env@[key],
{
    let keep = |k: Seq<char>| !patch.set_env@.contains_key(k);
    let r = spec_remove(alias_remove, Some(patch));
    lemma_dedupe(r);
    crate::path_mutation::lemma_retain_keeps(alias_remove, keep);
    if r.contains(key) {
        let j = choose|j: int| 0 <= j < r.len() && #[trigger] r[j] == key;
        let kept = retain(alias_remove, keep);
        if j < kept.len() {
            assert(r[j] == kept[j]);
            assert(keep(kept[j]));
        } else {
            assert(views(patch.remove_env@)[j - kept.len()] == key);
        }
    }
}

/// A key the patch removes never reaches the environment, even when the
/// patch also sets it.
pub proof fn lemma_patch_remove_env_wins(
    alias_env: Map<Seq<char>, Seq<char>>,
    alias_remove: Seq<Seq<char>>,
    patch: RuntimePatch,
    key: Seq<char>,
)
    requires
        views(patch.remove_env@).contains(key),
    ensures
        !without_keys(
            spec_env(alias_env, Some(patch)),
            dedupe(spec_remove(alias_remove, Some(patch))),
        ).contains_key(key),
{
    let r = spec_remove(alias_remove, Some(patch));
    lemma_dedupe(r);
    let kept = retain(alias_remove, |k: Seq<char>| !patch.set_env@.contains_key(k));
    let j = choose|j: int|
        0 <= j < views(patch.remove_env@).len() && #[trigger] views(patch.remove_env@)[j] == key;
    assert(r[kept.len() + j] == key);
}

} // verus!
