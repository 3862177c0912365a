//! The pattern renderer: walks the color groups and stitch groups of a
//! pattern and produces a layered vector-image document.
//!
//! Each color group becomes one styled layer whose color is the group's
//! explicit thread color, or the next generated color for groups without
//! one. Each stitch group contributes one list of image-space points, used
//! both for the needle-point markers (one small circle per stitch) and for
//! the thread trace (a path moving to the first point and drawing lines to
//! the rest). The document lists groups in pattern order, so output is
//! deterministic.

use vstd::prelude::*;
use crate::pattern::{Color, ColorGroup, Pattern, Stitch, lemma_nested_stitch_in_flat,
    pattern_stitches};
use crate::color::{colorless_before, colorless_count, lemma_colorless_count_bounds,
    lemma_colorless_count_take};
use crate::geom::{COORD_LIMIT, VIEW_MARGIN, Viewport, coords_bounded, lemma_bounds_properties,
    seq_max_x, seq_max_y, seq_min_x, seq_min_y, transform_point, viewport_for};

verus! {

/// Stroke width of the thread trace, in tenths of a pattern unit.
pub const LINE_WIDTH_TENTHS: u64 = 2;

/// Diameter of a needle-point marker, in tenths of a pattern unit.
pub const STITCH_DIAMETER_TENTHS: u64 = 4;

/// The rendering of one stitch group: its stitches' image-space
/// coordinates, in stitch order. The same points serve as the marker
/// centers and as the trace vertices (first point a move, the rest lines).
pub struct StitchGroupRender {
    pub points: Vec<(i64, i64)>,
}

/// The rendering of one color group: the resolved layer color and one
/// entry per stitch group, in order.
pub struct GroupRender {
    pub color: Color,
    pub stitch_groups: Vec<StitchGroupRender>,
}

/// A complete vector-image document: the viewport, one layer per color
/// group in pattern order, and the fixed style measures (in tenths of a
/// pattern unit).
pub struct SvgDocument {
    pub viewport: Viewport,
    pub groups: Vec<GroupRender>,
    pub stroke_width_tenths: u64,
    pub marker_diameter_tenths: u64,
}

/// The image-space coordinates of a stitch run: x kept, y flipped about the
/// top of the bounding box.
pub open spec fn transformed_points(sts: Seq<Stitch>, max_y: int) -> Seq<(i64, i64)> {
    Seq::new(sts.len(), |i: int| (sts[i].x, (max_y - sts[i].y) as i64))
}

/// The color that group `k` is rendered with: its explicit thread color if
/// it has one, otherwise the generated color at its allocation index.
pub open spec fn resolved_color(cgs: Seq<ColorGroup>, generated: Seq<Color>, k: int) -> Color {
    match cgs[k].thread {
        Some(t) => t.color,
        None => generated[colorless_before(cgs, k)],
    }
}

/// `gr` renders the color group `cg` with color `c`: one point list per
/// stitch group, holding the transformed coordinates of its stitches.
pub open spec fn group_renders(gr: GroupRender, cg: ColorGroup, c: Color, max_y: int) -> bool {
    &&& gr.color == c
    &&& gr.stitch_groups@.len() == cg.stitch_groups@.len()
    &&& forall|s: int|
        0 <= s < cg.stitch_groups@.len() ==> (#[trigger] gr.stitch_groups@[s]).points@
            == transformed_points(cg.stitch_groups@[s].stitches@, max_y)
}

/// `doc` is the rendering of `p` with the given generated colors: the
/// viewport is the bounding box expanded by the margin, and group `g` is
/// rendered with its resolved color, in pattern order.
pub open spec fn document_renders(doc: SvgDocument, p: Pattern, generated: Seq<Color>) -> bool {
    let st = pattern_stitches(p);
    &&& doc.viewport.min_x == seq_min_x(st) - VIEW_MARGIN
    &&& doc.viewport.min_y == -(VIEW_MARGIN as int)
    &&& doc.viewport.width == seq_max_x(st) - seq_min_x(st) + 2 * VIEW_MARGIN
    &&& doc.viewport.height == seq_max_y(st) - seq_min_y(st) + 2 * VIEW_MARGIN
    &&& doc.stroke_width_tenths == LINE_WIDTH_TENTHS
    &&& doc.marker_diameter_tenths == STITCH_DIAMETER_TENTHS
    &&& doc.groups@.len() == p.color_groups@.len()
    &&& forall|g: int|
        0 <= g < p.color_groups@.len() ==> group_renders(
            #[trigger] doc.groups@[g],
            p.color_groups@[g],
            resolved_color(p.color_groups@, generated, g),
            seq_max_y(st),
        )
}

/// Renders patterns as layered vector-image documents.
pub struct SvgPatternWriter {}

impl Default for SvgPatternWriter {
    fn default() -> (r: Self)
        ensures
            r == (SvgPatternWriter {  }),
    {
        SvgPatternWriter {  }
    }
}

impl SvgPatternWriter {
    /// Renders a pattern into a vector-image document. `generated` holds
    /// the colors allocated for the groups without an explicit thread
    /// color, in allocation order: exactly one per such group.
    pub fn render_document(&self, pattern: &Pattern, generated: &Vec<Color>) -> (doc: SvgDocument)
        requires
            coords_bounded(*pattern),
            generated@.len() == colorless_count(pattern.color_groups@),
        ensures
            document_renders(doc, *pattern, generated@),
    {
        let (min_x, min_y, max_x, max_y) = pattern.get_bounds();
        proof {
            let flat = pattern_stitches(*pattern);
            lemma_bounds_properties(flat);
            if flat.len() > 0 {
                let jx = choose|i: int| 0 <= i < flat.len() && (#[trigger] flat[i]).x == seq_min_x(
                    flat,
                );
                let jy = choose|i: int| 0 <= i < flat.len() && (#[trigger] flat[i]).y == seq_min_y(
                    flat,
                );
                let kx = choose|i: int| 0 <= i < flat.len() && (#[trigger] flat[i]).x == seq_max_x(
                    flat,
                );
                let ky = choose|i: int| 0 <= i < flat.len() && (#[trigger] flat[i]).y == seq_max_y(
                    flat,
                );
                assert(-(COORD_LIMIT as int) <= flat[jx].x <= COORD_LIMIT as int);
                assert(-(COORD_LIMIT as int) <= flat[jy].y <= COORD_LIMIT as int);
                assert(-(COORD_LIMIT as int) <= flat[kx].x <= COORD_LIMIT as int);
                assert(-(COORD_LIMIT as int) <= flat[ky].y <= COORD_LIMIT as int);
            }
        }
        let viewport = viewport_for(min_x, min_y, max_x, max_y);
        let mut groups: Vec<GroupRender> = Vec::new();
        let mut used: usize = 0;
        let mut g: usize = 0;
        while g < pattern.color_groups.len()
            invariant
                0 <= g <= pattern.color_groups.len(),
                coords_bounded(*pattern),
                generated@.len() == colorless_count(pattern.color_groups@),
                max_y == seq_max_y(pattern_stitches(*pattern)),
                used == colorless_before(pattern.color_groups@, g as int),
                groups@.len() == g,
                forall|i: int|
                    0 <= i < g ==> group_renders(
                        #[trigger] groups@[i],
                        pattern.color_groups@[i],
                        resolved_color(pattern.color_groups@, generated@, i),
                        seq_max_y(pattern_stitches(*pattern)),
                    ),
            decreases pattern.color_groups.len() - g,
        {
            let cg = &pattern.color_groups[g];
            proof {
                lemma_colorless_count_take(pattern.color_groups@, g as int);
                lemma_colorless_count_bounds(pattern.color_groups@, g as int);
                assert(pattern.color_groups@.take(pattern.color_groups@.len() as int)
                    =~= pattern.color_groups@);
            }
            let color: Color = if let Some(thread) = &cg.thread {
                thread.color
            } else {
                let c = generated[used];
                used = used + 1;
                c
            };
            let mut sgs_r: Vec<StitchGroupRender> = Vec::new();
            let mut s: usize = 0;
            while s < cg.stitch_groups.len()
                invariant
                    0 <= s <= cg.stitch_groups.len(),
                    cg == &pattern.color_groups@[g as int],
                    0 <= g < pattern.color_groups.len(),
                    coords_bounded(*pattern),
                    max_y == seq_max_y(pattern_stitches(*pattern)),
                    sgs_r@.len() == s,
                    forall|i: int|
                        0 <= i < s ==> (#[trigger] sgs_r@[i]).points@ == transformed_points(
                            cg.stitch_groups@[i].stitches@,
                            max_y as int,
                        ),
                decreases cg.stitch_groups.len() - s,
            {
                let sg = &cg.stitch_groups[s];
                let mut pts: Vec<(i64, i64)> = Vec::new();
                let mut k: usize = 0;
                while k < sg.stitches.len()
                    invariant
                        0 <= k <= sg.stitches.len(),
                        sg == &cg.stitch_groups@[s as int],
                        cg == &pattern.color_groups@[g as int],
                        0 <= g < pattern.color_groups.len(),
                        0 <= s < cg.stitch_groups.len(),
                        coords_bounded(*pattern),
                        max_y == seq_max_y(pattern_stitches(*pattern)),
                        pts@ == transformed_points(sg.stitches@.take(k as int), max_y as int),
                    decreases sg.stitches.len() - k,
                {
                    let stitch = sg.stitches[k];
                    proof {
                        let flat = pattern_stitches(*pattern);
                        lemma_nested_stitch_in_flat(
                            pattern.color_groups@,
                            g as int,
                            s as int,
                            k as int,
                        );
                        let idx = choose|i: int| 0 <= i < flat.len() && flat[i] == stitch;
                        assert(-(COORD_LIMIT as int) <= flat[idx].y <= COORD_LIMIT as int);
                        lemma_bounds_properties(flat);
                        let ky = choose|i: int|
                            0 <= i < flat.len() && (#[trigger] flat[i]).y == seq_max_y(flat);
                        assert(-(COORD_LIMIT as int) <= flat[ky].y <= COORD_LIMIT as int);
                    }
                    let p = transform_point(stitch.x, stitch.y, max_y);
                    pts.push(p);
                    proof {
                        assert((max_y - stitch.y) as i64 == max_y - stitch.y);
                        assert(transformed_points(sg.stitches@.take(k + 1), max_y as int)
                            =~= transformed_points(sg.stitches@.take(k as int), max_y as int).push(
                            (stitch.x, (max_y - stitch.y) as i64),
                        ));
                    }
                    k = k + 1;
                }
                proof {
                    assert(sg.stitches@.take(sg.stitches@.len() as int) =~= sg.stitches@);
                }
                sgs_r.push(StitchGroupRender { points: pts });
                s = s + 1;
            }
            groups.push(GroupRender { color, stitch_groups: sgs_r });
            g = g + 1;
        }
        SvgDocument {
            viewport,
            groups,
            stroke_width_tenths: LINE_WIDTH_TENTHS,
            marker_diameter_tenths: STITCH_DIAMETER_TENTHS,
        }
    }
}

/// Rendering is deterministic: any two documents that render the same
/// pattern with the same generated colors agree on the viewport, on every
/// layer color and on every point list.
pub proof fn lemma_render_deterministic(
    d1: SvgDocument,
    d2: SvgDocument,
    p: Pattern,
    generated: Seq<Color>,
)
    requires
        document_renders(d1, p, generated),
        document_renders(d2, p, generated),
    ensures
        d1.viewport == d2.viewport,
        d1.groups@.len() == d2.groups@.len(),
        forall|g: int|
            0 <= g < d1.groups@.len() ==> (#[trigger] d1.groups@[g]).color == d2.groups@[g].color,
        forall|g: int, s: int|
            0 <= g < d1.groups@.len() && 0 <= s < d1.groups@[g].stitch_groups@.len()
                ==> (#[trigger] d1.groups@[g].stitch_groups@[s]).points@
                == d2.groups@[g].stitch_groups@[s].points@,
{
}

/// Rendering a pattern whose color groups all carry an explicit thread
/// color never draws on the generated colors: every group is resolved to
/// its own thread color, whatever colors are handed in.
pub proof fn lemma_no_colorless_ignores_generated(
    cgs: Seq<ColorGroup>,
    g1: Seq<Color>,
    g2: Seq<Color>,
    k: int,
)
    requires
        colorless_count(cgs) == 0,
        0 <= k < cgs.len(),
    ensures
        cgs[k].thread is Some,
        resolved_color(cgs, g1, k) == resolved_color(cgs, g2, k),
{
    if cgs[k].thread is None {
        lemma_colorless_count_bounds(cgs, k);
    }
}

} // verus!
