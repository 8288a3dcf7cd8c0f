//! Wrapper symlinks: where an alias's wrapper goes (`~/bin` or
//! `~/.local/bin`, whichever comes first on `PATH`), what to do with what is
//! already there, and what to warn about. Touching the file system and
//! resolving paths stays with the caller, which reports what it found.
use crate::alias_paths::{join_path, path_join};
use crate::text::{concat2, concat3, to_owned};
use vstd::prelude::*;

verus! {

#[derive(Debug, Clone, PartialEq, Eq)]
pub struct WrapperLocation {
    pub wrapper_dir: String,
    pub wrapper_path: String,
    pub dir_in_path: bool,
}

/// What a `PATH` entry turned out to be (`~/bin` is checked first).
#[derive(Debug, Clone, Copy, PartialEq, Eq, Structural)]
pub enum PathEntryMatch {
    HomeBin,
    LocalBin,
    Neither,
}

/// What sits at a wrapper path.
#[derive(Debug, Clone, PartialEq, Eq)]
pub enum WrapperPathState {
    Symlink,
    NotSymlink,
    Missing,
    /// It could not be inspected; the reason.
    Unreadable(String),
}

/// What the alias name resolves to on `PATH`.
#[derive(Debug, Clone, PartialEq, Eq)]
pub enum PathLookup {
    /// The first hit, and whether it is the wrapper itself.
    Found { path: String, is_wrapper: bool },
    NotFound,
}

#[derive(Debug, Clone, PartialEq, Eq)]
pub enum WrapperError {
    NoHome,
    NotASymlink { path: String },
    CleanupRefused { path: String },
    InspectFailed { path: String },
    CleanupInspectFailed { path: String },
}

impl WrapperError {
    pub open spec fn spec_message(&self) -> Seq<char> {
        match self {
            WrapperError::NoHome => "unable to resolve HOME for wrapper sync; set HOME or pass --no-wrapper-sync"@,
            WrapperError::NotASymlink { path } => "wrapper path `"@ + path@
                + "` exists and is not a symlink"@,
            WrapperError::CleanupRefused { path } => "wrapper cleanup only removes symlinks; `"@
                + path@ + "` is not a symlink"@,
            WrapperError::InspectFailed { path } => "failed to inspect wrapper path "@ + path@,
            WrapperError::CleanupInspectFailed { path } => "failed to inspect wrapper "@ + path@,
        }
    }

    pub fn message(&self) -> (r: String)
        ensures
            r@ == self.spec_message(),
    {
        match self {
            WrapperError::NoHome => to_owned(
                "unable to resolve HOME for wrapper sync; set HOME or pass --no-wrapper-sync",
            ),
            WrapperError::NotASymlink { path } => concat3(
                "wrapper path `",
                path.as_str(),
                "` exists and is not a symlink",
            ),
            WrapperError::CleanupRefused { path } => concat3(
                "wrapper cleanup only removes symlinks; `",
                path.as_str(),
                "` is not a symlink",
            ),
            WrapperError::InspectFailed { path } => concat2(
                "failed to inspect wrapper path ",
                path.as_str(),
            ),
            WrapperError::CleanupInspectFailed { path } => concat2(
                "failed to inspect wrapper ",
                path.as_str(),
            ),
        }
    }
}

pub open spec fn home_bin(home: Seq<char>) -> Seq<char> {
    path_join(home, "bin"@)
}

pub open spec fn local_bin(home: Seq<char>) -> Seq<char> {
    path_join(path_join(home, ".local"@), "bin"@)
}

/// Index of the first `PATH` entry that is one of the two directories, or
/// the number of entries.
pub open spec fn first_bin_entry(entries: Seq<PathEntryMatch>) -> int
    decreases entries.len(),
{
    if entries.len() == 0 {
        0
    } else if entries[0] != PathEntryMatch::Neither {
        0
    } else {
        1 + first_bin_entry(entries.drop_first())
    }
}

/// The wrapper directory: the first of `~/bin` and `~/.local/bin` met on
/// `PATH`, else `~/.local/bin` (then not on `PATH`).
pub open spec fn wrapper_location_for(home: Seq<char>, alias: Seq<char>, entries: Seq<PathEntryMatch>) -> (
    Seq<char>,
    Seq<char>,
    bool,
) {
    let k = first_bin_entry(entries);
    let dir = if k < entries.len() && entries[k] == PathEntryMatch::HomeBin {
        home_bin(home)
    } else {
        local_bin(home)
    };
    (dir, path_join(dir, alias), k < entries.len())
}

proof fn lemma_first_bin_entry(entries: Seq<PathEntryMatch>, i: int)
    requires
        0 <= i <= entries.len(),
        forall|j: int| 0 <= j < i ==> #[trigger] entries[j] == PathEntryMatch::Neither,
        i == entries.len() || entries[i] != PathEntryMatch::Neither,
    ensures
        first_bin_entry(entries) == i,
    decreases i,
{
    if i > 0 {
        assert(entries[0] == PathEntryMatch::Neither);
        assert forall|j: int| 0 <= j < i - 1 implies #[trigger] entries.drop_first()[j]
            == PathEntryMatch::Neither by {
            assert(entries.drop_first()[j] == entries[j + 1]);
        }
        lemma_first_bin_entry(entries.drop_first(), i - 1);
    }
}

/// Where the wrapper of `alias` goes; fails without a home directory.
pub fn resolve_wrapper_location(home: Option<&str>, alias: &str, entries: &Vec<PathEntryMatch>) -> (r:
    Result<WrapperLocation, WrapperError>)
    ensures
        match home {
            None => r == Err::<WrapperLocation, WrapperError>(WrapperError::NoHome),
            Some(h) => r matches Ok(loc) && (loc.wrapper_dir@, loc.wrapper_path@, loc.dir_in_path)
                == wrapper_location_for(h@, alias@, entries@),
        },
{
    let h = match home {
        None => {
            return Err(WrapperError::NoHome);
        },
        Some(h) => h,
    };
    let home_bin_dir = join_path(h, "bin");
    let local = join_path(h, ".local");
    let local_bin_dir = join_path(local.as_str(), "bin");
    let mut i: usize = 0;
    while i < entries.len()
        invariant
            0 <= i <= entries.len(),
            home == Some(h),
            home_bin_dir@ == home_bin(h@),
            local_bin_dir@ == local_bin(h@),
            forall|j: int| 0 <= j < i ==> #[trigger] entries@[j] == PathEntryMatch::Neither,
        decreases entries.len() - i,
    {
        match entries[i] {
            PathEntryMatch::Neither => {},
            PathEntryMatch::HomeBin => {
                proof {
                    lemma_first_bin_entry(entries@, i as int);
                }
                let path = join_path(home_bin_dir.as_str(), alias);
                return Ok(WrapperLocation { wrapper_dir: home_bin_dir, wrapper_path: path, dir_in_path: true });
            },
            PathEntryMatch::LocalBin => {
                proof {
                    lemma_first_bin_entry(entries@, i as int);
                }
                let path = join_path(local_bin_dir.as_str(), alias);
                return Ok(WrapperLocation { wrapper_dir: local_bin_dir, wrapper_path: path, dir_in_path: true });
            },
        }
        i = i + 1;
    }
    proof {
        lemma_first_bin_entry(entries@, entries.len() as int);
    }
    let path = join_path(local_bin_dir.as_str(), alias);
    Ok(WrapperLocation { wrapper_dir: local_bin_dir, wrapper_path: path, dir_in_path: false })
}

/// Before a wrapper is (re)created: an existing symlink is removed first
/// (`Ok(true)`), nothing there is fine (`Ok(false)`), anything else stops.
pub fn prepare_wrapper_path(path: &str, state: &WrapperPathState) -> (r: Result<bool, WrapperError>)
    ensures
        match *state {
            WrapperPathState::Symlink => r == Ok::<bool, WrapperError>(true),
            WrapperPathState::Missing => r == Ok::<bool, WrapperError>(false),
            WrapperPathState::NotSymlink => r matches Err(WrapperError::NotASymlink { path: p }) && p@ == path@,
            WrapperPathState::Unreadable(_) => r matches Err(WrapperError::InspectFailed { path: p }) && p@ == path@,
        },
{
    match state {
        WrapperPathState::Symlink => Ok(true),
        WrapperPathState::Missing => Ok(false),
        WrapperPathState::NotSymlink => Err(WrapperError::NotASymlink { path: to_owned(path) }),
        WrapperPathState::Unreadable(_) => Err(WrapperError::InspectFailed { path: to_owned(path) }),
    }
}

/// Removing a wrapper: only a symlink is removed (`Ok(true)`); nothing
/// there is `Ok(false)`; anything else is refused.
pub fn cleanup_wrapper_path(path: &str, state: &WrapperPathState) -> (r: Result<bool, WrapperError>)
    ensures
        match *state {
            WrapperPathState::Symlink => r == Ok::<bool, WrapperError>(true),
            WrapperPathState::Missing => r == Ok::<bool, WrapperError>(false),
            WrapperPathState::NotSymlink => r matches Err(WrapperError::CleanupRefused { path: p }) && p@ == path@,
            WrapperPathState::Unreadable(_) => r matches Err(WrapperError::CleanupInspectFailed { path: p }) && p@ == path@,
        },
{
    match state {
        WrapperPathState::Symlink => Ok(true),
        WrapperPathState::Missing => Ok(false),
        WrapperPathState::NotSymlink => Err(WrapperError::CleanupRefused { path: to_owned(path) }),
        WrapperPathState::Unreadable(_) => Err(WrapperError::CleanupInspectFailed { path: to_owned(path) }),
    }
}

/// The warnings about a wrapper: its directory off `PATH`, nothing or
/// something else at its path, or another command found first.
pub open spec fn health_warnings(
    alias: Seq<char>,
    dir: Seq<char>,
    path: Seq<char>,
    dir_in_path: bool,
    state: WrapperPathState,
    lookup: PathLookup,
) -> Seq<Seq<char>> {
    let w0 = if !dir_in_path {
        seq!["wrapper dir `"@ + dir + "` is not present in PATH"@]
    } else {
        Seq::empty()
    };
    let w1 = match state {
        WrapperPathState::Symlink => Seq::empty(),
        WrapperPathState::NotSymlink => seq!["wrapper path `"@ + path + "` exists but is not a symlink"@],
        WrapperPathState::Missing => seq!["no wrapper symlink found at `"@ + path + "`"@],
        WrapperPathState::Unreadable(e) => seq!["failed to inspect wrapper path `"@ + path + "`: "@ + e@],
    };
    let w2 = if state is Symlink && dir_in_path {
        match lookup {
            PathLookup::Found { path: hit, is_wrapper } => if is_wrapper {
                Seq::empty()
            } else {
                seq!["wrapper `"@ + path + "` is shadowed by `"@ + hit@ + "` earlier in PATH"@]
            },
            PathLookup::NotFound => seq!["`"@ + alias + "` is not currently resolvable on PATH"@],
        }
    } else {
        Seq::empty()
    };
    w0 + w1 + w2
}

pub fn wrapper_health_warnings(
    alias: &str,
    location: &WrapperLocation,
    state: &WrapperPathState,
    lookup: &PathLookup,
) -> (r: Vec<String>)
    ensures
        crate::text::views(r@) == health_warnings(
            alias@,
            location.wrapper_dir@,
            location.wrapper_path@,
            location.dir_in_path,
            *state,
            *lookup,
        ),
{
    let mut warnings: Vec<String> = Vec::new();
    if !location.dir_in_path {
        warnings.push(concat3("wrapper dir `", location.wrapper_dir.as_str(), "` is not present in PATH"));
    }
    let path = location.wrapper_path.as_str();
    let is_symlink = match state {
        WrapperPathState::Symlink => true,
        WrapperPathState::NotSymlink => {
            warnings.push(concat3("wrapper path `", path, "` exists but is not a symlink"));
            false
        },
        WrapperPathState::Missing => {
            warnings.push(concat3("no wrapper symlink found at `", path, "`"));
            false
        },
        WrapperPathState::Unreadable(e) => {
            let mut w = concat3("failed to inspect wrapper path `", path, "`: ");
            w.append(e.as_str());
            warnings.push(w);
            false
        },
    };
    if is_symlink && location.dir_in_path {
        match lookup {
            PathLookup::Found { path: hit, is_wrapper } => {
                if !*is_wrapper {
                    let mut w = concat3("wrapper `", path, "` is shadowed by `");
                    w.append(hit.as_str());
                    w.append("` earlier in PATH");
                    warnings.push(w);
                }
            },
            PathLookup::NotFound => {
                warnings.push(concat3("`", alias, "` is not currently resolvable on PATH"));
            },
        }
    }
    assert(crate::text::views(warnings@) =~= health_warnings(
        alias@,
        location.wrapper_dir@,
        location.wrapper_path@,
        location.dir_in_path,
        *state,
        *lookup,
    ));
    warnings
}

} // verus!
