//! Which `PATH` hit runs for a command: the first one that is not this very
//! program (a wrapper pointing back at the launcher), so that an alias named
//! like its target reaches the real target.
use crate::text::{ascii_lower, chars_of, str_eq, string_from_chars, to_owned, vec_ascii_lower};
use vstd::prelude::*;

verus! {

/// Device and inode: what makes two paths the same file.
#[derive(Debug, Clone, Copy, PartialEq, Eq, Structural)]
pub struct FileIdentity {
    pub dev: u64,
    pub ino: u64,
}

/// The launcher's own name, in any ASCII case.
pub fn is_direct_chopper_name(name: &str) -> (r: bool)
    ensures
        r == (ascii_lower(name@) == "chopper"@),
{
    let lower = string_from_chars(&vec_ascii_lower(&chars_of(name)));
    str_eq(lower.as_str(), "chopper")
}

/// A `PATH` hit is skipped when it is known to be one of the skipped files.
pub open spec fn skipped(hit: (Seq<char>, Option<FileIdentity>), skip: Seq<FileIdentity>) -> bool {
    match hit.1 {
        Some(id) => skip.contains(id),
        None => false,
    }
}

pub open spec fn hit_view(h: (String, Option<FileIdentity>)) -> (Seq<char>, Option<FileIdentity>) {
    (h.0@, h.1)
}

/// The path to run for `command`, given its `PATH` hits in order (each with
/// its file identity when it could be read) or `None` when the lookup
/// failed, and the identities to skip: the first hit not skipped; failing
/// that the first hit; failing that the command itself. The launcher's own
/// name takes the first hit.
pub open spec fn resolved_command(
    command: Seq<char>,
    hits: Option<Seq<(Seq<char>, Option<FileIdentity>)>>,
    skip: Seq<FileIdentity>,
) -> Seq<char> {
    match hits {
        None => command,
        Some(hs) => if hs.len() == 0 {
            command
        } else if ascii_lower(command) == "chopper"@ {
            hs[0].0
        } else if exists|i: int| 0 <= i < hs.len() && !skipped(#[trigger] hs[i], skip) {
            hs[first_kept(hs, skip)].0
        } else {
            hs[0].0
        },
    }
}

/// Index of the first hit that is not skipped, or the length.
pub open spec fn first_kept(hs: Seq<(Seq<char>, Option<FileIdentity>)>, skip: Seq<FileIdentity>) -> int
    decreases hs.len(),
{
    if hs.len() == 0 {
        0
    } else if !skipped(hs[0], skip) {
        0
    } else {
        1 + first_kept(hs.drop_first(), skip)
    }
}

proof fn lemma_first_kept(hs: Seq<(Seq<char>, Option<FileIdentity>)>, skip: Seq<FileIdentity>, i: int)
    requires
        0 <= i <= hs.len(),
        forall|j: int| 0 <= j < i ==> skipped(#[trigger] hs[j], skip),
        i == hs.len() || !skipped(hs[i], skip),
    ensures
        first_kept(hs, skip) == i,
    decreases i,
{
    if i > 0 {
        assert(skipped(hs[0], skip));
        assert forall|j: int| 0 <= j < i - 1 implies skipped(#[trigger] hs.drop_first()[j], skip) by {
            assert(hs.drop_first()[j] == hs[j + 1]);
        }
        lemma_first_kept(hs.drop_first(), skip, i - 1);
    }
}

proof fn lemma_first_kept_bounds(hs: Seq<(Seq<char>, Option<FileIdentity>)>, skip: Seq<FileIdentity>)
    ensures
        0 <= first_kept(hs, skip) <= hs.len(),
        first_kept(hs, skip) < hs.len() ==> !skipped(hs[first_kept(hs, skip)], skip),
        forall|j: int| 0 <= j < first_kept(hs, skip) ==> skipped(#[trigger] hs[j], skip),
    decreases hs.len(),
{
    if hs.len() > 0 && skipped(hs[0], skip) {
        let t = hs.drop_first();
        lemma_first_kept_bounds(t, skip);
        assert forall|j: int| 0 <= j < first_kept(hs, skip) implies skipped(#[trigger] hs[j], skip) by {
            if j > 0 {
                assert(hs[j] == t[j - 1]);
            }
        }
    }
}

/// Unless every hit is skipped (or the launcher itself is asked for), the
/// path chosen is a hit that is not skipped, and every earlier hit is.
pub proof fn lemma_resolved_hit_is_not_skipped(
    command: Seq<char>,
    hs: Seq<(Seq<char>, Option<FileIdentity>)>,
    skip: Seq<FileIdentity>,
    k: int,
)
    requires
        0 <= k < hs.len(),
        !skipped(hs[k], skip),
        ascii_lower(command) != "chopper"@,
    ensures
        exists|i: int|
            0 <= i <= k && !skipped(#[trigger] hs[i], skip) && resolved_command(command, Some(hs), skip)
                == hs[i].0 && forall|j: int| 0 <= j < i ==> skipped(#[trigger] hs[j], skip),
{
    lemma_first_kept_bounds(hs, skip);
    let i = first_kept(hs, skip);
    if i > k {
        assert(skipped(hs[k], skip));
    }
    assert(0 <= i <= k);
    assert(!skipped(hs[i], skip));
}

fn identity_skipped(id: &Option<FileIdentity>, skip: &Vec<FileIdentity>) -> (r: bool)
    ensures
        r == match *id {
            Some(x) => skip@.contains(x),
            None => false,
        },
{
    match id {
        None => false,
        Some(x) => {
            let mut k: usize = 0;
            while k < skip.len()
                invariant
                    0 <= k <= skip.len(),
                    *id == Some(*x),
                    forall|j: int| 0 <= j < k ==> skip@[j] != *x,
                decreases skip.len() - k,
            {
                if skip[k].dev == x.dev && skip[k].ino == x.ino {
                    assert(skip@[k as int] == *x);
                    assert(skip@.contains(*x));
                    return true;
                }
                k = k + 1;
            }
            false
        },
    }
}

/// The path to run for `command`; see [`resolved_command`].
pub fn resolve_command_path(
    command: &str,
    hits: &Option<Vec<(String, Option<FileIdentity>)>>,
    skip: &Vec<FileIdentity>,
) -> (r: String)
    ensures
        r@ == resolved_command(
            command@,
            match *hits {
                Some(h) => Some(h@.map_values(|x: (String, Option<FileIdentity>)| hit_view(x))),
                None => None,
            },
            skip@,
        ),
{
    let hs = match hits {
        None => {
            return to_owned(command);
        },
        Some(h) => h,
    };
    let ghost s = hs@.map_values(|x: (String, Option<FileIdentity>)| hit_view(x));
    if hs.len() == 0 {
        return to_owned(command);
    }
    assert(s[0] == hit_view(hs@[0]));
    if is_direct_chopper_name(command) {
        return hs[0].0.clone();
    }
    let mut i: usize = 0;
    while i < hs.len()
        invariant
            0 <= i <= hs.len(),
            *hits == Some(*hs),
            hs.len() > 0,
            ascii_lower(command@) != "chopper"@,
            s == hs@.map_values(|x: (String, Option<FileIdentity>)| hit_view(x)),
            forall|j: int| 0 <= j < i ==> skipped(#[trigger] s[j], skip@),
        decreases hs.len() - i,
    {
        assert(s[i as int] == hit_view(hs@[i as int]));
        if !identity_skipped(&hs[i].1, skip) {
            proof {
                assert(!skipped(s[i as int], skip@));
                lemma_first_kept(s, skip@, i as int);
            }
            return hs[i].0.clone();
        }
        i = i + 1;
    }
    assert(!exists|i: int| 0 <= i < s.len() && !skipped(#[trigger] s[i], skip@));
    hs[0].0.clone()
}

} // verus!
