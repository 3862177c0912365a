//! Deterministic color allocation for color groups that carry no explicit
//! thread color.
//!
//! Index `i` of `n` colorless groups is assigned the hue `i * 360 / n`
//! degrees in a perceptually uniform cylindrical color space (lightness 50,
//! chroma 100), converted to red/green/blue for display. Hues are evenly
//! spaced over the full circle, so the colors are pairwise distinct in hue
//! and stable across runs. The conversion from hue to red/green/blue is
//! floating-point work done outside the library; this module owns the
//! verified bookkeeping: which groups need a generated color, their indices
//! in allocation order, and the hue each index receives.

use vstd::prelude::*;
use crate::pattern::{ColorGroup, Pattern};

verus! {

/// How many of the color groups carry no explicit thread color. Generated
/// colors are allocated to exactly these groups, in order.
pub open spec fn colorless_count(cgs: Seq<ColorGroup>) -> int
    decreases cgs.len(),
{
    if cgs.len() == 0 {
        0
    } else {
        colorless_count(cgs.drop_last()) + if cgs.last().thread is None {
            1int
        } else {
            0int
        }
    }
}

/// The allocation index of color group `k`: how many colorless groups
/// precede it.
pub open spec fn colorless_before(cgs: Seq<ColorGroup>, k: int) -> int {
    colorless_count(cgs.take(k))
}

pub proof fn lemma_colorless_count_take(cgs: Seq<ColorGroup>, i: int)
    requires
        0 <= i < cgs.len(),
    ensures
        colorless_count(cgs.take(i + 1)) == colorless_count(cgs.take(i)) + if cgs[i].thread
            is None {
            1int
        } else {
            0int
        },
{
    assert(cgs.take(i + 1).drop_last() =~= cgs.take(i));
    assert(cgs.take(i + 1).last() == cgs[i]);
}

/// The count of colorless groups never exceeds the number of groups, and
/// every group's allocation index stays below the total count.
pub proof fn lemma_colorless_count_bounds(cgs: Seq<ColorGroup>, k: int)
    requires
        0 <= k < cgs.len(),
    ensures
        0 <= colorless_before(cgs, k),
        colorless_count(cgs) <= cgs.len(),
        cgs[k].thread is None ==> colorless_before(cgs, k) < colorless_count(cgs),
    decreases cgs.len(),
{
    lemma_colorless_nondecreasing(cgs, k + 1, cgs.len() as int);
    lemma_colorless_count_take(cgs, k);
    lemma_colorless_len(cgs.take(k));
    lemma_colorless_len(cgs);
    assert(cgs.take(cgs.len() as int) =~= cgs);
}

proof fn lemma_colorless_len(cgs: Seq<ColorGroup>)
    ensures
        0 <= colorless_count(cgs) <= cgs.len(),
    decreases cgs.len(),
{
    if cgs.len() > 0 {
        lemma_colorless_len(cgs.drop_last());
    }
}

proof fn lemma_colorless_nondecreasing(cgs: Seq<ColorGroup>, i: int, j: int)
    requires
        0 <= i <= j <= cgs.len(),
    ensures
        colorless_count(cgs.take(i)) <= colorless_count(cgs.take(j)),
    decreases j - i,
{
    if i < j {
        lemma_colorless_nondecreasing(cgs, i + 1, j);
        lemma_colorless_count_take(cgs, i);
    }
}

impl Pattern {
    /// The number of color groups lacking an explicit thread color: the
    /// total the Color Allocator spaces its hues over.
    pub fn colorless_total(&self) -> (n: usize)
        ensures
            n == colorless_count(self.color_groups@),
    {
        let mut n: usize = 0;
        let mut i: usize = 0;
        while i < self.color_groups.len()
            invariant
                0 <= i <= self.color_groups.len(),
                n == colorless_count(self.color_groups@.take(i as int)),
                n <= i,
            decreases self.color_groups.len() - i,
        {
            proof {
                lemma_colorless_count_take(self.color_groups@, i as int);
            }
            if self.color_groups[i].thread.is_none() {
                n = n + 1;
            }
            i = i + 1;
        }
        proof {
            assert(self.color_groups@.take(self.color_groups@.len() as int)
                =~= self.color_groups@);
        }
        n
    }
}

/// The hue assigned to allocation index `i`, in degrees scaled by the total
/// `n` to stay integral: index `i` of `n` receives the hue `360 * i / n`
/// degrees, so `hue_scaled(i)` is that hue times `n`.
pub open spec fn hue_scaled(i: int) -> int {
    360 * i
}

/// For every total `n >= 1`, the hues assigned to indices `0..n` are
/// pairwise distinct and span the full hue circle: each scaled hue lies in
/// `[0, 360 * n)`, that is, each hue `360 * i / n` lies in `[0, 360)`.
pub proof fn lemma_hue_spacing(i: int, j: int, n: int)
    requires
        1 <= n,
        0 <= i < n,
        0 <= j < n,
        i != j,
    ensures
        hue_scaled(i) != hue_scaled(j),
        0 <= hue_scaled(i) < 360 * n,
{
}

} // verus!
