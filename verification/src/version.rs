//! The version comparator: decides whether a candidate `<pkgver>-<pkgrel>`
//! string is strictly newer than the currently installed one.
//!
//! Comparison is deliberately lexicographic, not numeric, on the segments
//! that splitting the whole version string on `.` yields: it works for
//! conventional dotted versions but ranks `"10"` below `"9"`, since `'1'`
//! orders below `'9'`. That known limitation is part of the contract and is
//! preserved, not corrected.
use vstd::prelude::*;
use vstd::string::StringExecFns;

use crate::text::lex_gt;
use crate::text::spec_split;
use crate::text::split_on;
use crate::text::str_eq;
use crate::text::str_gt;

verus! {

/// The segments a version string is compared by: the whole
/// `<pkgver>-<pkgrel>` string split on `.`, so the `-<pkgrel>` suffix rides
/// along on the last segment.
pub open spec fn version_segments(v: Seq<char>) -> Seq<Seq<char>> {
    spec_split(v, '.')
}

/// `candidate` counts as newer than `current` when the two strings differ
/// and no segment of `current`, among the positions both sides have, orders
/// lexicographically above its counterpart in `candidate`. A segment of
/// `current` above its counterpart marks the candidate as equal-or-regressed
/// (for instance a package that switched to a rolling version scheme).
pub open spec fn spec_is_newer(current: Seq<char>, candidate: Seq<char>) -> bool {
    let cur = version_segments(current);
    let cand = version_segments(candidate);
    &&& current != candidate
    &&& forall|i: int|
        0 <= i < cur.len() && i < cand.len() ==> !lex_gt(#[trigger] cur[i], cand[i])
}

/// Whether `candidate` is a strictly newer version than `current`.
///
/// Segment lists of unequal length are compared only up to the shorter one;
/// scanning never indexes past either list.
pub fn is_newer(current: &str, candidate: &str) -> (r: bool)
    ensures
        r == spec_is_newer(current@, candidate@),
{
    if str_eq(current, candidate) {
        return false;
    }
    let cur = split_on(current, '.');
    let cand = split_on(candidate, '.');
    let bound: usize = if cur.len() < cand.len() {
        cur.len()
    } else {
        cand.len()
    };
    let mut i: usize = 0;
    while i < bound
        invariant
            cur.deep_view() == version_segments(current@),
            cand.deep_view() == version_segments(candidate@),
            bound <= cur.len(),
            bound <= cand.len(),
            bound == cur.len() || bound == cand.len(),
            0 <= i <= bound,
            forall|j: int|
                0 <= j < i ==> !lex_gt(
                    #[trigger] cur.deep_view()[j],
                    cand.deep_view()[j],
                ),
        decreases bound - i,
    {
        if str_gt(&cur[i], &cand[i]) {
            proof {
                assert(lex_gt(cur.deep_view()[i as int], cand.deep_view()[i as int]));
            }
            return false;
        }
        i = i + 1;
    }
    true
}

/// Joins an upstream version and a release number into the
/// `<pkgver>-<pkgrel>` form that records and snapshots carry.
pub fn make_version(pkgver: &str, pkgrel: &str) -> (r: String)
    ensures
        r@ == pkgver@ + seq!['-'] + pkgrel@,
{
    let mut r = String::from_str(pkgver);
    r.append("-");
    r.append(pkgrel);
    proof {
        reveal_strlit("-");
        assert(r@ =~= pkgver@ + seq!['-'] + pkgrel@);
    }
    r
}

} // verus!
