//! Mapping from pattern space (y increases upward) to image space
//! (y increases downward), and the image viewport with its margin.

use vstd::prelude::*;
use crate::pattern::{Pattern, Stitch, pattern_stitches};

verus! {

/// Margin added on each side of the bounding box when computing the
/// viewport, in pattern units.
pub const VIEW_MARGIN: i64 = 10;

/// Every coordinate bound the library computes with stays well inside `i64`
/// when stitches are bounded by this magnitude.
pub const COORD_LIMIT: i64 = 1_000_000_000_000;

/// All stitch coordinates of the pattern lie within `[-COORD_LIMIT,
/// COORD_LIMIT]`, so differences and margins cannot overflow.
pub open spec fn coords_bounded(p: Pattern) -> bool {
    forall|i: int|
        0 <= i < pattern_stitches(p).len() ==> {
            &&& -(COORD_LIMIT as int) <= (#[trigger] pattern_stitches(p)[i]).x <= COORD_LIMIT
                as int
            &&& -(COORD_LIMIT as int) <= pattern_stitches(p)[i].y <= COORD_LIMIT as int
        }
}

/// The vertical flip from pattern space to image space: x is unchanged and
/// y becomes `max_y - y`, where `max_y` is the top of the bounding box.
pub open spec fn flip_y(y: int, max_y: int) -> int {
    max_y - y
}

/// Converts a pattern-space point to image space: x is kept, y is flipped
/// about the top of the bounding box.
pub fn transform_point(x: i64, y: i64, max_y: i64) -> (r: (i64, i64))
    requires
        i64::MIN <= max_y - y <= i64::MAX,
    ensures
        r.0 == x,
        r.1 == flip_y(y as int, max_y as int),
{
    (x, max_y - y)
}

/// The vertical flip is an involution on y and the identity on x: applying
/// it twice restores the point, and the top edge `max_y` maps to 0.
pub proof fn lemma_flip_involution(y: int, max_y: int)
    ensures
        flip_y(flip_y(y, max_y), max_y) == y,
        flip_y(max_y, max_y) == 0,
{
}

/// The image viewport: origin and extent in image space, in pattern units.
#[derive(Clone, Copy, PartialEq, Eq, Structural, Debug)]
pub struct Viewport {
    pub min_x: i64,
    pub min_y: i64,
    pub width: i64,
    pub height: i64,
}

/// The least x coordinate over a stitch sequence, 0 when it is empty.
pub open spec fn seq_min_x(s: Seq<Stitch>) -> int
    decreases s.len(),
{
    if s.len() == 0 {
        0
    } else if s.len() == 1 {
        s[0].x as int
    } else if s.last().x < seq_min_x(s.drop_last()) {
        s.last().x as int
    } else {
        seq_min_x(s.drop_last())
    }
}

/// The least y coordinate over a stitch sequence, 0 when it is empty.
pub open spec fn seq_min_y(s: Seq<Stitch>) -> int
    decreases s.len(),
{
    if s.len() == 0 {
        0
    } else if s.len() == 1 {
        s[0].y as int
    } else if s.last().y < seq_min_y(s.drop_last()) {
        s.last().y as int
    } else {
        seq_min_y(s.drop_last())
    }
}

/// The greatest x coordinate over a stitch sequence, 0 when it is empty.
pub open spec fn seq_max_x(s: Seq<Stitch>) -> int
    decreases s.len(),
{
    if s.len() == 0 {
        0
    } else if s.len() == 1 {
        s[0].x as int
    } else if s.last().x > seq_max_x(s.drop_last()) {
        s.last().x as int
    } else {
        seq_max_x(s.drop_last())
    }
}

/// The greatest y coordinate over a stitch sequence, 0 when it is empty.
pub open spec fn seq_max_y(s: Seq<Stitch>) -> int
    decreases s.len(),
{
    if s.len() == 0 {
        0
    } else if s.len() == 1 {
        s[0].y as int
    } else if s.last().y > seq_max_y(s.drop_last()) {
        s.last().y as int
    } else {
        seq_max_y(s.drop_last())
    }
}

/// The bounds enclose every stitch, and each bound is attained by some
/// stitch when the sequence is nonempty.
pub proof fn lemma_bounds_properties(s: Seq<Stitch>)
    ensures
        forall|i: int|
            0 <= i < s.len() ==> {
                &&& seq_min_x(s) <= (#[trigger] s[i]).x <= seq_max_x(s)
                &&& seq_min_y(s) <= s[i].y <= seq_max_y(s)
            },
        s.len() > 0 ==> exists|i: int| 0 <= i < s.len() && (#[trigger] s[i]).x == seq_min_x(s),
        s.len() > 0 ==> exists|i: int| 0 <= i < s.len() && (#[trigger] s[i]).y == seq_min_y(s),
        s.len() > 0 ==> exists|i: int| 0 <= i < s.len() && (#[trigger] s[i]).x == seq_max_x(s),
        s.len() > 0 ==> exists|i: int| 0 <= i < s.len() && (#[trigger] s[i]).y == seq_max_y(s),
        seq_min_x(s) <= seq_max_x(s) || s.len() == 0,
        seq_min_y(s) <= seq_max_y(s) || s.len() == 0,
    decreases s.len(),
{
    if s.len() == 1 {
        assert(s[0] == s.last());
    }
    if s.len() > 1 {
        let d = s.drop_last();
        lemma_bounds_properties(d);
        assert(forall|i: int| 0 <= i < s.len() - 1 ==> (#[trigger] s[i]) == d[i]);
        assert(s[s.len() - 1] == s.last());
        let jx = choose|i: int| 0 <= i < d.len() && (#[trigger] d[i]).x == seq_min_x(d);
        assert(s[jx] == d[jx]);
        let jy = choose|i: int| 0 <= i < d.len() && (#[trigger] d[i]).y == seq_min_y(d);
        assert(s[jy] == d[jy]);
        let kx = choose|i: int| 0 <= i < d.len() && (#[trigger] d[i]).x == seq_max_x(d);
        assert(s[kx] == d[kx]);
        let ky = choose|i: int| 0 <= i < d.len() && (#[trigger] d[i]).y == seq_max_y(d);
        assert(s[ky] == d[ky]);
    }
}

impl Pattern {
    /// The bounding box of the pattern as `(min_x, min_y, max_x, max_y)`,
    /// computed over every stitch of every group; all zero for a pattern
    /// with no stitches.
    pub fn get_bounds(&self) -> (r: (i64, i64, i64, i64))
        ensures
            r.0 == seq_min_x(pattern_stitches(*self)),
            r.1 == seq_min_y(pattern_stitches(*self)),
            r.2 == seq_max_x(pattern_stitches(*self)),
            r.3 == seq_max_y(pattern_stitches(*self)),
    {
        let st = self.flat_stitches();
        if st.len() == 0 {
            return (0, 0, 0, 0);
        }
        let mut min_x: i64 = st[0].x;
        let mut min_y: i64 = st[0].y;
        let mut max_x: i64 = st[0].x;
        let mut max_y: i64 = st[0].y;
        let mut i: usize = 1;
        while i < st.len()
            invariant
                1 <= i <= st.len(),
                st@ == pattern_stitches(*self),
                min_x == seq_min_x(st@.take(i as int)),
                min_y == seq_min_y(st@.take(i as int)),
                max_x == seq_max_x(st@.take(i as int)),
                max_y == seq_max_y(st@.take(i as int)),
            decreases st.len() - i,
        {
            proof {
                assert(st@.take(i + 1).drop_last() =~= st@.take(i as int));
                assert(st@.take(i + 1).last() == st@[i as int]);
            }
            let s = st[i];
            if s.x < min_x {
                min_x = s.x;
            }
            if s.y < min_y {
                min_y = s.y;
            }
            if s.x > max_x {
                max_x = s.x;
            }
            if s.y > max_y {
                max_y = s.y;
            }
            i = i + 1;
        }
        proof {
            assert(st@.take(st@.len() as int) =~= st@);
        }
        (min_x, min_y, max_x, max_y)
    }
}

/// Computes the viewport for a bounding box: the box expanded by the fixed
/// margin on each side. In image space the top of the box sits at y = 0, so
/// the viewport origin is `(min_x - margin, -margin)` and each dimension
/// grows by twice the margin.
pub fn viewport_for(min_x: i64, min_y: i64, max_x: i64, max_y: i64) -> (v: Viewport)
    requires
        min_x <= max_x,
        min_y <= max_y,
        -(COORD_LIMIT as int) <= min_x,
        max_x <= COORD_LIMIT as int,
        -(COORD_LIMIT as int) <= min_y,
        max_y <= COORD_LIMIT as int,
    ensures
        v.min_x == min_x - VIEW_MARGIN,
        v.min_y == -VIEW_MARGIN as int,
        v.width == max_x - min_x + 2 * VIEW_MARGIN,
        v.height == max_y - min_y + 2 * VIEW_MARGIN,
{
    Viewport {
        min_x: min_x - VIEW_MARGIN,
        min_y: -VIEW_MARGIN,
        width: max_x - min_x + 2 * VIEW_MARGIN,
        height: max_y - min_y + 2 * VIEW_MARGIN,
    }
}

} // verus!
