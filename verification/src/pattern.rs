//! The in-memory model of an embroidery design: ordered color groups of
//! ordered stitch groups of stitch points, plus a set of metadata attributes.
//!
//! Coordinates are integers in fixed pattern units, with y increasing upward
//! in pattern space.

use vstd::prelude::*;

verus! {

/// A single needle-penetration point, in pattern units (y increases upward).
#[derive(Clone, Copy, PartialEq, Eq, Structural, Debug)]
pub struct Stitch {
    pub x: i64,
    pub y: i64,
}

/// A display color in the red/green/blue color space.
#[derive(Clone, Copy, PartialEq, Eq, Structural, Debug)]
pub struct Color {
    pub red: u8,
    pub green: u8,
    pub blue: u8,
}

/// A thread descriptor: carries the concrete color of the thread.
#[derive(Clone, Copy, PartialEq, Eq, Structural, Debug)]
pub struct Thread {
    pub color: Color,
}

/// An opaque, equatable metadata marker attached to a pattern (for example a
/// design-name tag or a stitch-count hint). Only membership matters.
#[derive(Clone, Copy, PartialEq, Eq, Structural, Debug, Hash)]
pub struct PatternAttribute {
    pub code: u64,
    pub value: u64,
}

/// A contiguous run of stitches sewn without a color change.
#[derive(Clone, Debug)]
pub struct StitchGroup {
    pub stitches: Vec<Stitch>,
}

/// One needle pass of a single thread: a run of stitch groups, with an
/// optional explicit thread color.
#[derive(Clone, Debug)]
pub struct ColorGroup {
    pub thread: Option<Thread>,
    pub stitch_groups: Vec<StitchGroup>,
}

/// The complete design: an ordered sequence of color groups and a set of
/// attributes (held in a vector; comparisons use set semantics).
#[derive(Clone, Debug)]
pub struct Pattern {
    pub color_groups: Vec<ColorGroup>,
    pub attributes: Vec<PatternAttribute>,
}

/// The stitches of a run of stitch groups, concatenated in order.
pub open spec fn stitch_groups_stitches(sgs: Seq<StitchGroup>) -> Seq<Stitch>
    decreases sgs.len(),
{
    if sgs.len() == 0 {
        Seq::empty()
    } else {
        stitch_groups_stitches(sgs.drop_last()) + sgs.last().stitches@
    }
}

/// The stitches of a run of color groups, concatenated in order.
pub open spec fn color_groups_stitches(cgs: Seq<ColorGroup>) -> Seq<Stitch>
    decreases cgs.len(),
{
    if cgs.len() == 0 {
        Seq::empty()
    } else {
        color_groups_stitches(cgs.drop_last()) + stitch_groups_stitches(
            cgs.last().stitch_groups@,
        )
    }
}

/// The flat stitch sequence of a pattern: every stitch of every group, in
/// pattern order.
pub open spec fn pattern_stitches(p: Pattern) -> Seq<Stitch> {
    color_groups_stitches(p.color_groups@)
}

/// The attribute set of a pattern (membership-only semantics).
pub open spec fn attr_set(p: Pattern) -> Set<PatternAttribute> {
    p.attributes@.to_set()
}

/// Structural equality of stitch groups.
pub open spec fn stitch_group_eq(a: StitchGroup, b: StitchGroup) -> bool {
    a.stitches@ == b.stitches@
}

/// Structural equality of color groups.
pub open spec fn color_group_eq(a: ColorGroup, b: ColorGroup) -> bool {
    &&& a.thread == b.thread
    &&& a.stitch_groups@.len() == b.stitch_groups@.len()
    &&& forall|i: int|
        0 <= i < a.stitch_groups@.len() ==> stitch_group_eq(
            a.stitch_groups@[i],
            b.stitch_groups@[i],
        )
}

/// Structural equality of whole patterns.
pub open spec fn pattern_eq(a: Pattern, b: Pattern) -> bool {
    &&& a.attributes@ == b.attributes@
    &&& a.color_groups@.len() == b.color_groups@.len()
    &&& forall|i: int|
        0 <= i < a.color_groups@.len() ==> color_group_eq(a.color_groups@[i], b.color_groups@[i])
}

proof fn lemma_stitch_groups_stitches_take(sgs: Seq<StitchGroup>, i: int)
    requires
        0 <= i < sgs.len(),
    ensures
        stitch_groups_stitches(sgs.take(i + 1)) == stitch_groups_stitches(sgs.take(i))
            + sgs[i].stitches@,
{
    assert(sgs.take(i + 1).drop_last() =~= sgs.take(i));
    assert(sgs.take(i + 1).last() == sgs[i]);
}

proof fn lemma_color_groups_stitches_take(cgs: Seq<ColorGroup>, i: int)
    requires
        0 <= i < cgs.len(),
    ensures
        color_groups_stitches(cgs.take(i + 1)) == color_groups_stitches(cgs.take(i))
            + stitch_groups_stitches(cgs[i].stitch_groups@),
{
    assert(cgs.take(i + 1).drop_last() =~= cgs.take(i));
    assert(cgs.take(i + 1).last() == cgs[i]);
}

impl StitchGroup {
    /// Copies the stitches of this group, in order.
    fn stitches_vec(&self) -> (r: Vec<Stitch>)
        ensures
            r@ == self.stitches@,
    {
        let mut r: Vec<Stitch> = Vec::new();
        let mut i: usize = 0;
        while i < self.stitches.len()
            invariant
                0 <= i <= self.stitches.len(),
                r@ == self.stitches@.take(i as int),
            decreases self.stitches.len() - i,
        {
            r.push(self.stitches[i]);
            proof {
                assert(self.stitches@.take(i + 1) =~= self.stitches@.take(i as int).push(
                    self.stitches@[i as int],
                ));
            }
            i = i + 1;
        }
        proof {
            assert(self.stitches@.take(self.stitches@.len() as int) =~= self.stitches@);
        }
        r
    }
}

impl Pattern {
    /// The flat stitch sequence of the pattern as a vector: every stitch of
    /// every color group and stitch group, concatenated in pattern order.
    pub fn flat_stitches(&self) -> (r: Vec<Stitch>)
        ensures
            r@ == pattern_stitches(*self),
    {
        let mut r: Vec<Stitch> = Vec::new();
        let mut g: usize = 0;
        while g < self.color_groups.len()
            invariant
                0 <= g <= self.color_groups.len(),
                r@ == color_groups_stitches(self.color_groups@.take(g as int)),
            decreases self.color_groups.len() - g,
        {
            let cg = &self.color_groups[g];
            let mut s: usize = 0;
            while s < cg.stitch_groups.len()
                invariant
                    0 <= s <= cg.stitch_groups.len(),
                    cg == &self.color_groups@[g as int],
                    0 <= g < self.color_groups.len(),
                    r@ == color_groups_stitches(self.color_groups@.take(g as int))
                        + stitch_groups_stitches(cg.stitch_groups@.take(s as int)),
                decreases cg.stitch_groups.len() - s,
            {
                let sg = &cg.stitch_groups[s];
                let mut k: usize = 0;
                while k < sg.stitches.len()
                    invariant
                        0 <= k <= sg.stitches.len(),
                        sg == &cg.stitch_groups@[s as int],
                        cg == &self.color_groups@[g as int],
                        0 <= g < self.color_groups.len(),
                        0 <= s < cg.stitch_groups.len(),
                        r@ == color_groups_stitches(self.color_groups@.take(g as int))
                            + stitch_groups_stitches(cg.stitch_groups@.take(s as int))
                            + sg.stitches@.take(k as int),
                    decreases sg.stitches.len() - k,
                {
                    r.push(sg.stitches[k]);
                    proof {
                        assert(sg.stitches@.take(k + 1) =~= sg.stitches@.take(k as int).push(
                            sg.stitches@[k as int],
                        ));
                        assert(color_groups_stitches(self.color_groups@.take(g as int))
                            + stitch_groups_stitches(cg.stitch_groups@.take(s as int))
                            + sg.stitches@.take(k + 1) =~= (color_groups_stitches(
                            self.color_groups@.take(g as int),
                        ) + stitch_groups_stitches(cg.stitch_groups@.take(s as int))
                            + sg.stitches@.take(k as int)).push(sg.stitches@[k as int]));
                    }
                    k = k + 1;
                }
                proof {
                    assert(sg.stitches@.take(sg.stitches@.len() as int) =~= sg.stitches@);
                    lemma_stitch_groups_stitches_take(cg.stitch_groups@, s as int);
                    assert(color_groups_stitches(self.color_groups@.take(g as int))
                        + stitch_groups_stitches(cg.stitch_groups@.take(s + 1))
                        =~= color_groups_stitches(self.color_groups@.take(g as int))
                        + stitch_groups_stitches(cg.stitch_groups@.take(s as int)) + sg.stitches@);
                }
                s = s + 1;
            }
            proof {
                assert(cg.stitch_groups@.take(cg.stitch_groups@.len() as int)
                    =~= cg.stitch_groups@);
                lemma_color_groups_stitches_take(self.color_groups@, g as int);
            }
            g = g + 1;
        }
        proof {
            assert(self.color_groups@.take(self.color_groups@.len() as int)
                =~= self.color_groups@);
        }
        r
    }

    /// A deep copy of the pattern, structurally equal to the original.
    pub fn deep_clone(&self) -> (r: Pattern)
        ensures
            pattern_eq(r, *self),
    {
        let mut groups: Vec<ColorGroup> = Vec::new();
        let mut g: usize = 0;
        while g < self.color_groups.len()
            invariant
                0 <= g <= self.color_groups.len(),
                groups@.len() == g,
                forall|i: int|
                    0 <= i < g ==> color_group_eq(groups@[i], self.color_groups@[i]),
            decreases self.color_groups.len() - g,
        {
            let cg = &self.color_groups[g];
            let mut sgs: Vec<StitchGroup> = Vec::new();
            let mut s: usize = 0;
            while s < cg.stitch_groups.len()
                invariant
                    0 <= s <= cg.stitch_groups.len(),
                    cg == &self.color_groups@[g as int],
                    0 <= g < self.color_groups.len(),
                    sgs@.len() == s,
                    forall|i: int|
                        0 <= i < s ==> stitch_group_eq(sgs@[i], cg.stitch_groups@[i]),
                decreases cg.stitch_groups.len() - s,
            {
                let copy = StitchGroup { stitches: cg.stitch_groups[s].stitches_vec() };
                sgs.push(copy);
                s = s + 1;
            }
            groups.push(ColorGroup { thread: cg.thread, stitch_groups: sgs });
            g = g + 1;
        }
        let mut attrs: Vec<PatternAttribute> = Vec::new();
        let mut a: usize = 0;
        while a < self.attributes.len()
            invariant
                0 <= a <= self.attributes.len(),
                attrs@ == self.attributes@.take(a as int),
            decreases self.attributes.len() - a,
        {
            attrs.push(self.attributes[a]);
            proof {
                assert(self.attributes@.take(a + 1) =~= self.attributes@.take(a as int).push(
                    self.attributes@[a as int],
                ));
            }
            a = a + 1;
        }
        proof {
            assert(self.attributes@.take(self.attributes@.len() as int) =~= self.attributes@);
        }
        Pattern { color_groups: groups, attributes: attrs }
    }
}

proof fn lemma_contains_lift(a: Seq<Stitch>, b: Seq<Stitch>, x: Stitch)
    requires
        a.contains(x),
    ensures
        (a + b).contains(x),
{
    let i = choose|i: int| 0 <= i < a.len() && a[i] == x;
    assert((a + b)[i] == a[i]);
}

proof fn lemma_stitch_group_stitch_in_flat(sgs: Seq<StitchGroup>, s: int, k: int)
    requires
        0 <= s < sgs.len(),
        0 <= k < sgs[s].stitches@.len(),
    ensures
        stitch_groups_stitches(sgs).contains(sgs[s].stitches@[k]),
    decreases sgs.len(),
{
    let rec = stitch_groups_stitches(sgs.drop_last());
    if s == sgs.len() - 1 {
        assert((rec + sgs.last().stitches@)[rec.len() + k] == sgs[s].stitches@[k]);
    } else {
        lemma_stitch_group_stitch_in_flat(sgs.drop_last(), s, k);
        assert(sgs.drop_last()[s] == sgs[s]);
        lemma_contains_lift(rec, sgs.last().stitches@, sgs[s].stitches@[k]);
    }
}

/// Every stitch of every stitch group of every color group occurs in the
/// flat stitch sequence.
pub proof fn lemma_nested_stitch_in_flat(cgs: Seq<ColorGroup>, g: int, s: int, k: int)
    requires
        0 <= g < cgs.len(),
        0 <= s < cgs[g].stitch_groups@.len(),
        0 <= k < cgs[g].stitch_groups@[s].stitches@.len(),
    ensures
        color_groups_stitches(cgs).contains(cgs[g].stitch_groups@[s].stitches@[k]),
    decreases cgs.len(),
{
    let rec = color_groups_stitches(cgs.drop_last());
    if g == cgs.len() - 1 {
        lemma_stitch_group_stitch_in_flat(cgs[g].stitch_groups@, s, k);
        let x = cgs[g].stitch_groups@[s].stitches@[k];
        let part = stitch_groups_stitches(cgs.last().stitch_groups@);
        let i = choose|i: int| 0 <= i < part.len() && part[i] == x;
        assert((rec + part)[rec.len() + i] == part[i]);
    } else {
        lemma_nested_stitch_in_flat(cgs.drop_last(), g, s, k);
        assert(cgs.drop_last()[g] == cgs[g]);
        lemma_contains_lift(
            rec,
            stitch_groups_stitches(cgs.last().stitch_groups@),
            cgs[g].stitch_groups@[s].stitches@[k],
        );
    }
}

/// Structurally equal patterns have the same flat stitch sequence and the
/// same attribute set.
pub proof fn lemma_pattern_eq_same_stitches(a: Pattern, b: Pattern)
    requires
        pattern_eq(a, b),
    ensures
        pattern_stitches(a) == pattern_stitches(b),
        attr_set(a) == attr_set(b),
{
    lemma_color_groups_stitches_eq(a.color_groups@, b.color_groups@);
}

proof fn lemma_stitch_groups_stitches_eq(a: Seq<StitchGroup>, b: Seq<StitchGroup>)
    requires
        a.len() == b.len(),
        forall|i: int| 0 <= i < a.len() ==> stitch_group_eq(a[i], b[i]),
    ensures
        stitch_groups_stitches(a) == stitch_groups_stitches(b),
    decreases a.len(),
{
    if a.len() > 0 {
        lemma_stitch_groups_stitches_eq(a.drop_last(), b.drop_last());
    }
}

proof fn lemma_color_groups_stitches_eq(a: Seq<ColorGroup>, b: Seq<ColorGroup>)
    requires
        a.len() == b.len(),
        forall|i: int| 0 <= i < a.len() ==> color_group_eq(a[i], b[i]),
    ensures
        color_groups_stitches(a) == color_groups_stitches(b),
    decreases a.len(),
{
    if a.len() > 0 {
        lemma_color_groups_stitches_eq(a.drop_last(), b.drop_last());
        lemma_stitch_groups_stitches_eq(
            a.last().stitch_groups@,
            b.last().stitch_groups@,
        );
    }
}

} // verus!
