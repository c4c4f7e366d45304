//! Path containment for the rename operation.
//!
//! Rename works on logical paths relative to the restricted `internal`
//! namespace.  Before the underlying filesystem is asked to rename
//! anything, both the source and the destination path must be shown to
//! resolve inside that namespace: walking the path's components, with
//! `..` stepping up one level, may never step above the namespace the
//! walk started in.  A path such as `../../etc` is rejected here and
//! never reaches the filesystem.

use vstd::prelude::*;

use crate::bytes::{split, split_bytes, views_of};
use crate::session::SLASH;

verus! {

/// Byte value of `.`.
pub const DOT: u8 = 46;

/// A component that leaves the walk where it is: empty, or `.`.
pub open spec fn is_stay(c: Seq<u8>) -> bool {
    c == Seq::<u8>::empty() || c == seq![DOT]
}

/// The parent component, `..`.
pub open spec fn is_parent(c: Seq<u8>) -> bool {
    c == seq![DOT, DOT]
}

/// Whether a component walk that is `depth` levels below its namespace
/// stays inside it to the end.
pub open spec fn comps_contained(cs: Seq<Seq<u8>>, depth: int) -> bool
    decreases cs.len(),
{
    if cs.len() == 0 {
        true
    } else {
        let c = cs.first();
        if is_stay(c) {
            comps_contained(cs.drop_first(), depth)
        } else if is_parent(c) {
            depth > 0 && comps_contained(cs.drop_first(), depth - 1)
        } else {
            comps_contained(cs.drop_first(), depth + 1)
        }
    }
}

/// Whether a relative path resolves inside the namespace it starts in.
pub open spec fn path_stays_within(p: Seq<u8>) -> bool {
    comps_contained(split(p, SLASH), 0)
}

/// Classify one path component.
fn classify(c: &Vec<u8>) -> (r: (bool, bool))
    ensures
        r.0 == is_stay(c@),
        r.1 == is_parent(c@),
{
    let stay = c.len() == 0 || (c.len() == 1 && c[0] == DOT);
    let parent = c.len() == 2 && c[0] == DOT && c[1] == DOT;
    proof {
        if c@.len() == 0 {
            assert(c@ =~= Seq::<u8>::empty());
        }
        if c@.len() == 1 && c@[0] == DOT {
            assert(c@ =~= seq![DOT]);
        }
        if c@.len() == 2 && c@[0] == DOT && c@[1] == DOT {
            assert(c@ =~= seq![DOT, DOT]);
        }
        if is_stay(c@) {
            assert(stay);
        }
        if is_parent(c@) {
            assert(parent);
        }
    }
    (stay, parent)
}

/// Check that a path resolves inside the namespace it starts in.
pub fn check_path_within(p: &Vec<u8>) -> (r: bool)
    ensures
        r == path_stays_within(p@),
{
    let comps = split_bytes(p, SLASH);
    let m = comps.len();
    let ghost all = views_of(comps@);
    let mut depth: usize = 0;
    let mut k: usize = 0;
    proof {
        assert(all.skip(0) =~= all);
    }
    while k < m
        invariant
            m == comps@.len(),
            k <= m,
            depth <= k,
            all == views_of(comps@),
            all == split(p@, SLASH),
            path_stays_within(p@) == comps_contained(all.skip(k as int), depth as int),
        decreases m - k,
    {
        let (stay, parent) = classify(&comps[k]);
        proof {
            assert(all.skip(k as int).first() == comps@[k as int]@);
            assert(all.skip(k as int).drop_first() =~= all.skip(k as int + 1));
        }
        if stay {
        } else if parent {
            if depth == 0 {
                return false;
            }
            depth = depth - 1;
        } else {
            depth = depth + 1;
        }
        k = k + 1;
    }
    proof {
        assert(all.skip(m as int) =~= Seq::<Seq<u8>>::empty());
    }
    true
}

/// Whether a rename from `src` to `dst` may be attempted at all: both
/// logical paths must resolve inside the restricted namespace.  The
/// filesystem is asked to rename only after this returns `true`.
pub fn rename_allowed(src: &Vec<u8>, dst: &Vec<u8>) -> (r: bool)
    ensures
        r == (path_stays_within(src@) && path_stays_within(dst@)),
{
    let s = check_path_within(src);
    if !s {
        return false;
    }
    check_path_within(dst)
}

} // verus!
