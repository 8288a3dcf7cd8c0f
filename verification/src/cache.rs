//! The manifest cache: which file an alias is cached in, and when a cached
//! manifest may be used. Reading and writing the file stays with the caller.
use crate::alias_paths::{join_path, path_join};
use crate::manifest::Manifest;
use crate::text::{chars_of, concat2, string_from_chars};
use vstd::prelude::*;

verus! {

/// What identifies the version of an alias configuration a manifest was
/// parsed from.
#[derive(Debug, Clone, PartialEq, Eq)]
pub struct SourceFingerprint {
    pub source_path: String,
    pub source_len: u64,
    pub source_modified_ns: u128,
}

pub open spec fn same_source(a: SourceFingerprint, b: SourceFingerprint) -> bool {
    &&& a.source_path@ == b.source_path@
    &&& a.source_len == b.source_len
    &&& a.source_modified_ns == b.source_modified_ns
}

pub fn same_fingerprint(a: &SourceFingerprint, b: &SourceFingerprint) -> (r: bool)
    ensures
        r == same_source(*a, *b),
{
    crate::text::str_eq(a.source_path.as_str(), b.source_path.as_str()) && a.source_len
        == b.source_len && a.source_modified_ns == b.source_modified_ns
}

/// A cached manifest is used only when it was made from the same version of
/// the source.
pub fn cached_manifest(
    entry_fingerprint: &SourceFingerprint,
    entry_manifest: Manifest,
    fingerprint: &SourceFingerprint,
) -> (r: Option<Manifest>)
    ensures
        r is Some <==> same_source(*entry_fingerprint, *fingerprint),
        r is Some ==> r == Some(entry_manifest),
{
    if same_fingerprint(entry_fingerprint, fingerprint) {
        Some(entry_manifest)
    } else {
        None
    }
}

pub open spec fn safe_char(c: char) -> char {
    if c == '/' || c == '\\' || c == ':' || c == ' ' {
        '_'
    } else {
        c
    }
}

/// The cache file name of an alias: separators and spaces become `_`.
pub open spec fn cache_file_name(alias: Seq<char>) -> Seq<char> {
    alias.map_values(|c: char| safe_char(c)) + ".bin"@
}

pub fn alias_cache_file_name(alias: &str) -> (r: String)
    ensures
        r@ == cache_file_name(alias@),
{
    let v = chars_of(alias);
    let mut out: Vec<char> = Vec::new();
    let mut i: usize = 0;
    while i < v.len()
        invariant
            0 <= i <= v.len(),
            v@ == alias@,
            out@ == v@.take(i as int).map_values(|c: char| safe_char(c)),
        decreases v.len() - i,
    {
        let c = v[i];
        let d = if c == '/' || c == '\\' || c == ':' || c == ' ' {
            '_'
        } else {
            c
        };
        out.push(d);
        assert(v@.take(i + 1).map_values(|c: char| safe_char(c)) =~= v@.take(i as int).map_values(
            |c: char| safe_char(c),
        ).push(safe_char(v@[i as int])));
        i = i + 1;
    }
    assert(v@.take(v.len() as int) =~= v@);
    let name = string_from_chars(&out);
    concat2(name.as_str(), ".bin")
}

/// The cache directory: a non-blank override (trimmed), else the
/// platform's cache directory for the program, else `.chopper-cache`.
pub open spec fn cache_root(override_value: Option<Seq<char>>, project_dir: Option<Seq<char>>) -> Seq<
    char,
> {
    match crate::env_util::path_override(override_value) {
        Some(p) => p,
        None => match project_dir {
            Some(d) => d,
            None => ".chopper-cache"@,
        },
    }
}

pub fn cache_root_dir(override_value: Option<&str>, project_dir: Option<&str>) -> (r: String)
    ensures
        r@ == cache_root(
            crate::journal_validation::opt_view(override_value),
            crate::journal_validation::opt_view(project_dir),
        ),
{
    match crate::env_util::path_override_value(override_value) {
        Some(p) => p,
        None => match project_dir {
            Some(d) => crate::text::to_owned(d),
            None => crate::text::to_owned(".chopper-cache"),
        },
    }
}

/// Where the manifest of `alias` is cached under `root`.
pub open spec fn cache_file(root: Seq<char>, alias: Seq<char>) -> Seq<char> {
    path_join(path_join(root, "manifests"@), cache_file_name(alias))
}

pub fn cache_file_path(root: &str, alias: &str) -> (r: String)
    ensures
        r@ == cache_file(root@, alias@),
{
    let dir = join_path(root, "manifests");
    let name = alias_cache_file_name(alias);
    join_path(dir.as_str(), name.as_str())
}

} // verus!
