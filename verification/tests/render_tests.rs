use embroidery_svg::pattern::{Color, ColorGroup, Pattern, Stitch, StitchGroup, Thread};
use embroidery_svg::geom::transform_point;
use embroidery_svg::render::SvgPatternWriter;
use palette::convert::FromColorUnclamped;

fn stitch(x: i64, y: i64) -> Stitch {
    Stitch { x, y }
}

fn group(thread: Option<Color>, runs: Vec<Vec<Stitch>>) -> ColorGroup {
    ColorGroup {
        thread: thread.map(|color| Thread { color }),
        stitch_groups: runs.into_iter().map(|stitches| StitchGroup { stitches }).collect(),
    }
}

fn pattern(groups: Vec<ColorGroup>) -> Pattern {
    Pattern { color_groups: groups, attributes: Vec::new() }
}

/// The color the allocator assigns to index `idx` of `total`: hue
/// `idx * 360 / total` at lightness 50, chroma 100, converted to sRGB.
fn allocated_color(idx: usize, total: usize) -> Color {
    let srgb: palette::Srgb<f32> = palette::Srgb::from_color_unclamped(palette::Lch::new(
        50.0f32,
        100.0,
        (idx as f32) * 360.0 / (total as f32),
    ));
    let bytes: palette::Srgb<u8> = srgb.into_format();
    Color { red: bytes.red, green: bytes.green, blue: bytes.blue }
}

#[test]
fn transform_flips_y_only() {
    assert_eq!(transform_point(3, 2, 10), (3, 8));
    assert_eq!(transform_point(-4, 10, 10), (-4, 0));
    assert_eq!(transform_point(0, -5, 10), (0, 15));
}

#[test]
fn transform_twice_restores_point() {
    let (x1, y1) = transform_point(7, 3, 12);
    let (x2, y2) = transform_point(x1, y1, 12);
    assert_eq!((x2, y2), (7, 3));
}

#[test]
fn bounds_of_empty_pattern_are_zero() {
    let p = pattern(vec![group(Some(Color { red: 1, green: 2, blue: 3 }), vec![vec![]])]);
    assert_eq!(p.get_bounds(), (0, 0, 0, 0));
}

#[test]
fn bounds_enclose_all_stitches() {
    let p = pattern(vec![
        group(None, vec![vec![stitch(-3, 4), stitch(10, -2)]]),
        group(None, vec![vec![stitch(5, 9)]]),
    ]);
    assert_eq!(p.get_bounds(), (-3, -2, 10, 9));
}

#[test]
fn viewport_adds_margin_on_each_side() {
    let red = Color { red: 255, green: 0, blue: 0 };
    let p = pattern(vec![group(Some(red), vec![vec![stitch(0, 0), stitch(10, 5)]])]);
    let writer = SvgPatternWriter::default();
    let doc = writer.render_document(&p, &Vec::new());
    assert_eq!(doc.viewport.min_x, -10);
    assert_eq!(doc.viewport.min_y, -10);
    assert_eq!(doc.viewport.width, 30);
    assert_eq!(doc.viewport.height, 25);
}

#[test]
fn document_carries_the_fixed_style_measures() {
    let p = pattern(vec![group(Some(Color { red: 0, green: 0, blue: 0 }), vec![vec![]])]);
    let doc = SvgPatternWriter::default().render_document(&p, &Vec::new());
    assert_eq!(doc.stroke_width_tenths, 2);
    assert_eq!(doc.marker_diameter_tenths, 4);
}

#[test]
fn rendered_points_are_in_image_space() {
    let red = Color { red: 255, green: 0, blue: 0 };
    let p = pattern(vec![group(Some(red), vec![vec![stitch(0, 0), stitch(10, 5)]])]);
    let doc = SvgPatternWriter::default().render_document(&p, &Vec::new());
    assert_eq!(doc.groups.len(), 1);
    assert_eq!(doc.groups[0].color, red);
    assert_eq!(doc.groups[0].stitch_groups.len(), 1);
    assert_eq!(doc.groups[0].stitch_groups[0].points, vec![(0, 5), (10, 0)]);
}

#[test]
fn empty_stitch_group_renders_no_points() {
    let red = Color { red: 200, green: 10, blue: 10 };
    let p = pattern(vec![group(Some(red), vec![vec![], vec![stitch(1, 1)]])]);
    let doc = SvgPatternWriter::default().render_document(&p, &Vec::new());
    assert_eq!(doc.groups[0].stitch_groups.len(), 2);
    assert!(doc.groups[0].stitch_groups[0].points.is_empty());
    assert_eq!(doc.groups[0].stitch_groups[1].points.len(), 1);
}

#[test]
fn all_explicit_groups_need_no_generated_colors() {
    let a = Color { red: 1, green: 2, blue: 3 };
    let b = Color { red: 4, green: 5, blue: 6 };
    let p = pattern(vec![
        group(Some(a), vec![vec![stitch(0, 0)]]),
        group(Some(b), vec![vec![stitch(2, 2)]]),
    ]);
    assert_eq!(p.colorless_total(), 0);
    let doc = SvgPatternWriter::default().render_document(&p, &Vec::new());
    assert_eq!(doc.groups[0].color, a);
    assert_eq!(doc.groups[1].color, b);
}

#[test]
fn colorless_group_gets_index_zero_color_regardless_of_order() {
    let explicit = Color { red: 9, green: 9, blue: 9 };
    let hue_zero = allocated_color(0, 1);
    for colorless_first in [true, false] {
        let mut groups = vec![
            group(None, vec![vec![stitch(0, 0)]]),
            group(Some(explicit), vec![vec![stitch(1, 1)]]),
        ];
        if !colorless_first {
            groups.reverse();
        }
        let p = pattern(groups);
        assert_eq!(p.colorless_total(), 1);
        let doc = SvgPatternWriter::default().render_document(&p, &vec![hue_zero]);
        let (colorless_idx, explicit_idx) = if colorless_first { (0, 1) } else { (1, 0) };
        assert_eq!(doc.groups[colorless_idx].color, hue_zero);
        assert_eq!(doc.groups[explicit_idx].color, explicit);
    }
}

#[test]
fn generated_colors_are_assigned_in_allocation_order() {
    let explicit = Color { red: 7, green: 7, blue: 7 };
    let c0 = allocated_color(0, 2);
    let c1 = allocated_color(1, 2);
    let p = pattern(vec![
        group(None, vec![vec![stitch(0, 0)]]),
        group(Some(explicit), vec![vec![stitch(1, 1)]]),
        group(None, vec![vec![stitch(2, 2)]]),
    ]);
    assert_eq!(p.colorless_total(), 2);
    let doc = SvgPatternWriter::default().render_document(&p, &vec![c0, c1]);
    assert_eq!(doc.groups[0].color, c0);
    assert_eq!(doc.groups[1].color, explicit);
    assert_eq!(doc.groups[2].color, c1);
}

#[test]
fn rendering_is_reproducible() {
    let p = pattern(vec![
        group(None, vec![vec![stitch(0, 0), stitch(3, 7)], vec![]]),
        group(Some(Color { red: 1, green: 2, blue: 3 }), vec![vec![stitch(-2, 5)]]),
    ]);
    let colors = vec![allocated_color(0, 1)];
    let d1 = SvgPatternWriter::default().render_document(&p, &colors);
    let d2 = SvgPatternWriter::default().render_document(&p, &colors);
    assert_eq!(d1.viewport, d2.viewport);
    assert_eq!(d1.groups.len(), d2.groups.len());
    for (g1, g2) in d1.groups.iter().zip(d2.groups.iter()) {
        assert_eq!(g1.color, g2.color);
        assert_eq!(g1.stitch_groups.len(), g2.stitch_groups.len());
        for (s1, s2) in g1.stitch_groups.iter().zip(g2.stitch_groups.iter()) {
            assert_eq!(s1.points, s2.points);
        }
    }
}

#[test]
fn evenly_spaced_hues_give_distinct_colors() {
    let total = 6;
    let colors: Vec<Color> = (0..total).map(|i| allocated_color(i, total)).collect();
    for i in 0..total {
        for j in 0..total {
            if i != j {
                assert_ne!(colors[i], colors[j]);
            }
        }
    }
}
