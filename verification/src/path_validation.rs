//! Shape checks on relative script paths.
use crate::text::{split_on2, split_str2, str_eq, trim_end_matches2, trim_end_matches_str2};
use vstd::prelude::*;

verus! {

/// A path segment that names something: not empty, `.` or `..`.
pub open spec fn is_meaningful_segment(seg: Seq<char>) -> bool {
    seg.len() > 0 && seg != "."@ && seg != ".."@
}

/// Some segment between separators `a`/`b` names something.
pub open spec fn has_meaningful_segment(s: Seq<char>, a: char, b: char) -> bool {
    exists|i: int|
        0 <= i < split_on2(s, a, b).len() && #[trigger] is_meaningful_segment(
            split_on2(s, a, b)[i],
        )
}

/// After trailing separators are dropped, the last segment is `.` or `..`.
pub open spec fn ends_with_dot_segment(s: Seq<char>, a: char, b: char) -> bool {
    let last = split_on2(trim_end_matches2(s, a, b), a, b).last();
    last == "."@ || last == ".."@
}

pub fn segment_is_meaningful(seg: &str) -> (r: bool)
    ensures
        r == is_meaningful_segment(seg@),
{
    let empty = crate::text::chars_of(seg).len() == 0;
    !empty && !str_eq(seg, ".") && !str_eq(seg, "..")
}

/// Whether some `a`/`b`-separated segment of `value` names something.
pub fn has_meaningful_segment_with(value: &str, a: char, b: char) -> (r: bool)
    ensures
        r == has_meaningful_segment(value@, a, b),
{
    let parts = split_str2(value, a, b);
    let ghost ps = parts@.map_values(|p: String| p@);
    let mut i: usize = 0;
    while i < parts.len()
        invariant
            0 <= i <= parts.len(),
            ps == parts@.map_values(|p: String| p@),
            ps == split_on2(value@, a, b),
            forall|j: int| 0 <= j < i ==> !#[trigger] is_meaningful_segment(ps[j]),
        decreases parts.len() - i,
    {
        if segment_is_meaningful(parts[i].as_str()) {
            assert(is_meaningful_segment(ps[i as int]));
            return true;
        }
        i = i + 1;
    }
    false
}

/// Whether the last `a`/`b`-separated segment, after trailing separators, is a
/// dot token.
pub fn ends_with_dot_segment_with(value: &str, a: char, b: char) -> (r: bool)
    ensures
        r == ends_with_dot_segment(value@, a, b),
{
    let trimmed = trim_end_matches_str2(value, a, b);
    let parts = split_str2(trimmed.as_str(), a, b);
    proof {
        crate::text::lemma_split_nonempty(trimmed@, a, b);
    }
    let last = &parts[parts.len() - 1];
    assert(last@ == split_on2(trimmed@, a, b).last());
    str_eq(last.as_str(), ".") || str_eq(last.as_str(), "..")
}

/// Some `/`-separated segment of `value` is neither empty nor a dot token.
pub fn has_meaningful_relative_segment(value: &str) -> (r: bool)
    ensures
        r == has_meaningful_segment(value@, '/', '/'),
{
    has_meaningful_segment_with(value, '/', '/')
}

/// The last `/`-separated segment, ignoring trailing `/`, is `.` or `..`.
pub fn ends_with_dot_component(value: &str) -> (r: bool)
    ensures
        r == ends_with_dot_segment(value@, '/', '/'),
{
    ends_with_dot_segment_with(value, '/', '/')
}

} // verus!
