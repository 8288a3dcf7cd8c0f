//! Where alias configurations live under the configuration root: the
//! canonical `<alias>/exe.toml`, the legacy `aliases/<alias>.toml` and
//! `<alias>.toml`, and which aliases a directory listing shows. Looking at
//! the file system stays with the caller, which reports what it found.
use crate::sorted_strings::{strictly_sorted, SortedStrings};
use crate::text::{chars_of, concat2, str_eq, string_from_range, to_owned, vec_ends_with, views};
use vstd::prelude::*;

verus! {

pub const EXEC_ALIAS_FILE: &'static str = "exe.toml";

pub const LEGACY_ALIASES_DIR: &'static str = "aliases";

/// `base` joined with the relative `part` (`Path::join`): a separator goes
/// between them unless `base` is empty or already ends with one.
pub open spec fn path_join(base: Seq<char>, part: Seq<char>) -> Seq<char> {
    if part.len() > 0 && part[0] == '/' {
        part
    } else if base.len() == 0 || base.last() == '/' {
        base + part
    } else {
        base + "/"@ + part
    }
}

pub fn join_path(base: &str, part: &str) -> (r: String)
    ensures
        r@ == path_join(base@, part@),
{
    let p = chars_of(part);
    if p.len() > 0 && p[0] == '/' {
        return to_owned(part);
    }
    let b = chars_of(base);
    if b.len() == 0 || b[b.len() - 1] == '/' {
        concat2(base, part)
    } else {
        crate::text::concat3(base, "/", part)
    }
}

/// `<root>/<alias>/exe.toml`
pub open spec fn default_exec_path(root: Seq<char>, alias: Seq<char>) -> Seq<char> {
    path_join(path_join(root, alias), EXEC_ALIAS_FILE@)
}

/// `<root>/aliases/<alias>.toml`
pub open spec fn legacy_aliases_path(root: Seq<char>, alias: Seq<char>) -> Seq<char> {
    path_join(path_join(root, LEGACY_ALIASES_DIR@), alias + ".toml"@)
}

/// `<root>/<alias>.toml`
pub open spec fn legacy_root_path(root: Seq<char>, alias: Seq<char>) -> Seq<char> {
    path_join(root, alias + ".toml"@)
}

/// The canonical configuration path of an alias.
pub fn default_exec_config_path(config_root: &str, alias: &str) -> (r: String)
    ensures
        r@ == default_exec_path(config_root@, alias@),
{
    let dir = join_path(config_root, alias);
    join_path(dir.as_str(), EXEC_ALIAS_FILE)
}

fn legacy_aliases_config_path(config_root: &str, alias: &str) -> (r: String)
    ensures
        r@ == legacy_aliases_path(config_root@, alias@),
{
    let dir = join_path(config_root, LEGACY_ALIASES_DIR);
    let file = concat2(alias, ".toml");
    join_path(dir.as_str(), file.as_str())
}

fn legacy_root_config_path(config_root: &str, alias: &str) -> (r: String)
    ensures
        r@ == legacy_root_path(config_root@, alias@),
{
    let file = concat2(alias, ".toml");
    join_path(config_root, file.as_str())
}

/// Where an alias's configuration may be, in the order they are tried.
pub open spec fn candidates(root: Seq<char>, alias: Seq<char>) -> Seq<Seq<char>> {
    seq![default_exec_path(root, alias), legacy_aliases_path(root, alias), legacy_root_path(root, alias)]
}

pub fn exec_config_candidates(config_root: &str, alias: &str) -> (r: Vec<String>)
    ensures
        views(r@) == candidates(config_root@, alias@),
{
    let mut r: Vec<String> = Vec::new();
    r.push(default_exec_config_path(config_root, alias));
    r.push(legacy_aliases_config_path(config_root, alias));
    r.push(legacy_root_config_path(config_root, alias));
    assert(views(r@) =~= candidates(config_root@, alias@));
    r
}

/// The configuration of `alias`: the first candidate that `present` marks as
/// an existing file (`present[i]` speaks of the `i`-th candidate).
pub fn find_exec_config(config_root: &str, alias: &str, present: &Vec<bool>) -> (r: Option<String>)
    requires
        present@.len() == 3,
    ensures
        match r {
            Some(p) => exists|i: int|
                0 <= i < 3 && #[trigger] present@[i] && p@ == candidates(config_root@, alias@)[i]
                    && forall|j: int| 0 <= j < i ==> !#[trigger] present@[j],
            None => forall|i: int| 0 <= i < 3 ==> !#[trigger] present@[i],
        },
{
    let cands = exec_config_candidates(config_root, alias);
    assert(views(cands@).len() == cands@.len());
    let mut i: usize = 0;
    while i < 3
        invariant
            0 <= i <= 3,
            cands@.len() == 3,
            present@.len() == 3,
            views(cands@) == candidates(config_root@, alias@),
            forall|j: int| 0 <= j < i ==> !#[trigger] present@[j],
        decreases 3 - i,
    {
        if present[i] {
            assert(views(cands@)[i as int] == cands@[i as int]@);
            return Some(cands[i].clone());
        }
        i = i + 1;
    }
    None
}

/// Whether `path` is the canonical configuration path of `alias`.
pub fn is_default_exec_config_path(config_root: &str, path: &str, alias: &str) -> (r: bool)
    ensures
        r == (path@ == default_exec_path(config_root@, alias@)),
{
    let d = default_exec_config_path(config_root, alias);
    str_eq(path, d.as_str())
}

/// Where a copy or renaming of `source_alias` (found at `source_path`) to
/// `target_alias` goes: the canonical `<root>/<target>/exe.toml`, whatever
/// layout the source is kept in, so that an alias in one of the older
/// layouts lands in the canonical one.
pub fn target_path_like_source(
    config_root: &str,
    _source_path: &str,
    _source_alias: &str,
    target_alias: &str,
) -> (r: String)
    ensures
        r@ == default_exec_path(config_root@, target_alias@),
{
    default_exec_config_path(config_root, target_alias)
}

// ---------------------------------------------------------------------------
// Listing aliases
// ---------------------------------------------------------------------------

/// A directory entry as the listing reports it.
#[derive(Debug, Clone, PartialEq, Eq)]
pub struct DirEntryInfo {
    /// The entry's file name.
    pub name: String,
    /// The entry is a directory.
    pub is_dir: bool,
    /// For a directory: it holds an `exe.toml` file.
    pub has_exec_file: bool,
}

/// The alias a root entry names in the canonical layout.
pub open spec fn canonical_alias(e: DirEntryInfo) -> Option<Seq<char>> {
    if e.is_dir && e.name@ != LEGACY_ALIASES_DIR@ && e.has_exec_file && e.name@.len() > 0 {
        Some(e.name@)
    } else {
        None
    }
}

/// The alias a legacy `<alias>.toml` file entry names.
pub open spec fn legacy_alias(e: DirEntryInfo) -> Option<Seq<char>> {
    let n = e.name@;
    if !e.is_dir && n.len() > 5 && n.subrange(n.len() - 5, n.len() as int) == ".toml"@ {
        Some(n.subrange(0, n.len() - 5))
    } else {
        None
    }
}

/// Every alias the listings show: canonical directories and legacy files
/// of the root, legacy files of `aliases/`.
pub open spec fn listed_aliases(root: Seq<DirEntryInfo>, legacy: Seq<DirEntryInfo>) -> Set<Seq<char>> {
    Set::new(
        |a: Seq<char>|
            (exists|i: int| 0 <= i < root.len() && #[trigger] canonical_alias(root[i]) == Some(a))
                || (exists|i: int| 0 <= i < root.len() && #[trigger] legacy_alias(root[i]) == Some(a))
                || (exists|i: int| 0 <= i < legacy.len() && #[trigger] legacy_alias(legacy[i]) == Some(a)),
    )
}

fn canonical_alias_of(e: &DirEntryInfo) -> (r: Option<String>)
    ensures
        crate::journal_validation::opt_string_view(r) == canonical_alias(*e),
{
    if e.is_dir && !str_eq(e.name.as_str(), LEGACY_ALIASES_DIR) && e.has_exec_file && chars_of(
        e.name.as_str(),
    ).len() > 0 {
        Some(e.name.clone())
    } else {
        None
    }
}

fn legacy_alias_of(e: &DirEntryInfo) -> (r: Option<String>)
    ensures
        crate::journal_validation::opt_string_view(r) == legacy_alias(*e),
{
    if e.is_dir {
        return None;
    }
    let chars = chars_of(e.name.as_str());
    let suffix = chars_of(".toml");
    proof {
        reveal_strlit(".toml");
    }
    if chars.len() > 5 && vec_ends_with(&chars, &suffix) {
        Some(string_from_range(&chars, 0, chars.len() - 5))
    } else {
        None
    }
}

/// The aliases shown by the listings of the root and of `aliases/`, in
/// ascending order, each once.
pub fn discover_exec_aliases(root_entries: &Vec<DirEntryInfo>, legacy_entries: &Vec<DirEntryInfo>) -> (r: Vec<String>)
    ensures
        strictly_sorted(views(r@)),
        views(r@).to_set() == listed_aliases(root_entries@, legacy_entries@),
{
    let ghost root = root_entries@;
    let ghost legacy = legacy_entries@;
    let mut set = SortedStrings::new();
    assert(set@.to_set() =~= Set::<Seq<char>>::empty());
    let mut i: usize = 0;
    while i < root_entries.len()
        invariant
            0 <= i <= root_entries.len(),
            root == root_entries@,
            set@.to_set() == Set::new(
                |a: Seq<char>|
                    (exists|k: int| 0 <= k < i && #[trigger] canonical_alias(root[k]) == Some(a))
                        || (exists|k: int| 0 <= k < i && #[trigger] legacy_alias(root[k]) == Some(a)),
            ),
        decreases root_entries.len() - i,
    {
        let ghost before = set@.to_set();
        let e = &root_entries[i];
        let c = canonical_alias_of(e);
        let l = legacy_alias_of(e);
        let ghost cv = canonical_alias(root[i as int]);
        let ghost lv = legacy_alias(root[i as int]);
        if let Some(a) = c {
            set.insert(a);
        }
        if let Some(a) = l {
            set.insert(a);
        }
        assert(set@.to_set() =~= Set::new(
            |a: Seq<char>|
                (exists|k: int| 0 <= k < i + 1 && #[trigger] canonical_alias(root[k]) == Some(a))
                    || (exists|k: int| 0 <= k < i + 1 && #[trigger] legacy_alias(root[k]) == Some(a)),
        )) by {
            assert forall|a: Seq<char>| set@.to_set().contains(a) implies ((exists|k: int|
                0 <= k < i + 1 && #[trigger] canonical_alias(root[k]) == Some(a)) || (exists|k: int|
                0 <= k < i + 1 && #[trigger] legacy_alias(root[k]) == Some(a))) by {
                if before.contains(a) {
                } else if cv == Some(a) {
                    assert(canonical_alias(root[i as int]) == Some(a));
                } else {
                    assert(legacy_alias(root[i as int]) == Some(a));
                }
            }
        }
        i = i + 1;
    }
    let mut j: usize = 0;
    while j < legacy_entries.len()
        invariant
            0 <= j <= legacy_entries.len(),
            root == root_entries@,
            legacy == legacy_entries@,
            set@.to_set() == Set::new(
                |a: Seq<char>|
                    (exists|k: int| 0 <= k < root.len() && #[trigger] canonical_alias(root[k]) == Some(a))
                        || (exists|k: int| 0 <= k < root.len() && #[trigger] legacy_alias(root[k]) == Some(a))
                        || (exists|k: int| 0 <= k < j && #[trigger] legacy_alias(legacy[k]) == Some(a)),
            ),
        decreases legacy_entries.len() - j,
    {
        let ghost before = set@.to_set();
        let ghost lv = legacy_alias(legacy[j as int]);
        if let Some(a) = legacy_alias_of(&legacy_entries[j]) {
            set.insert(a);
        }
        assert(set@.to_set() =~= Set::new(
            |a: Seq<char>|
                (exists|k: int| 0 <= k < root.len() && #[trigger] canonical_alias(root[k]) == Some(a))
                    || (exists|k: int| 0 <= k < root.len() && #[trigger] legacy_alias(root[k]) == Some(a))
                    || (exists|k: int| 0 <= k < j + 1 && #[trigger] legacy_alias(legacy[k]) == Some(a)),
        )) by {
            assert forall|a: Seq<char>| set@.to_set().contains(a) && !before.contains(a) implies (exists|k: int|
                0 <= k < j + 1 && #[trigger] legacy_alias(legacy[k]) == Some(a)) by {
                assert(legacy_alias(legacy[j as int]) == Some(a));
            }
        }
        j = j + 1;
    }
    assert(set@.to_set() =~= listed_aliases(root, legacy));
    set.to_vec()
}

} // verus!
