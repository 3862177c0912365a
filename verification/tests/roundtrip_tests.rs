use embroidery_svg::pattern::{Color, ColorGroup, Pattern, PatternAttribute, Stitch, StitchGroup,
    Thread};
use embroidery_svg::roundtrip::{CodecError, PatternSink, PatternSource, VerifyError,
    check_iteration, test_read_write_pair};

fn stitch(x: i64, y: i64) -> Stitch {
    Stitch { x, y }
}

fn attr(code: u64, value: u64) -> PatternAttribute {
    PatternAttribute { code, value }
}

fn group(thread: Option<Color>, runs: Vec<Vec<Stitch>>) -> ColorGroup {
    ColorGroup {
        thread: thread.map(|color| Thread { color }),
        stitch_groups: runs.into_iter().map(|stitches| StitchGroup { stitches }).collect(),
    }
}

fn sample_pattern() -> Pattern {
    Pattern {
        color_groups: vec![
            group(
                Some(Color { red: 10, green: 20, blue: 30 }),
                vec![vec![stitch(0, 0), stitch(1, 2), stitch(3, 4)], vec![stitch(5, 6)]],
            ),
            group(None, vec![vec![stitch(7, 8), stitch(9, 10)]]),
        ],
        attributes: vec![attr(1, 100), attr(2, 200)],
    }
}

fn encode(p: &Pattern) -> Vec<u8> {
    let mut out = Vec::new();
    out.extend((p.attributes.len() as u64).to_le_bytes());
    for a in &p.attributes {
        out.extend(a.code.to_le_bytes());
        out.extend(a.value.to_le_bytes());
    }
    out.extend((p.color_groups.len() as u64).to_le_bytes());
    for cg in &p.color_groups {
        match &cg.thread {
            Some(t) => out.extend([1u8, t.color.red, t.color.green, t.color.blue]),
            None => out.extend([0u8, 0, 0, 0]),
        }
        out.extend((cg.stitch_groups.len() as u64).to_le_bytes());
        for sg in &cg.stitch_groups {
            out.extend((sg.stitches.len() as u64).to_le_bytes());
            for s in &sg.stitches {
                out.extend(s.x.to_le_bytes());
                out.extend(s.y.to_le_bytes());
            }
        }
    }
    out
}

struct Reader<'a> {
    data: &'a [u8],
    pos: usize,
}

impl<'a> Reader<'a> {
    fn u64(&mut self) -> u64 {
        let v = u64::from_le_bytes(self.data[self.pos..self.pos + 8].try_into().unwrap());
        self.pos += 8;
        v
    }

    fn i64(&mut self) -> i64 {
        let v = i64::from_le_bytes(self.data[self.pos..self.pos + 8].try_into().unwrap());
        self.pos += 8;
        v
    }

    fn byte(&mut self) -> u8 {
        let v = self.data[self.pos];
        self.pos += 1;
        v
    }
}

fn decode(data: &[u8]) -> Pattern {
    let mut r = Reader { data, pos: 0 };
    let n_attrs = r.u64();
    let mut attributes = Vec::new();
    for _ in 0..n_attrs {
        attributes.push(PatternAttribute { code: r.u64(), value: r.u64() });
    }
    let n_groups = r.u64();
    let mut color_groups = Vec::new();
    for _ in 0..n_groups {
        let has_thread = r.byte() == 1;
        let (red, green, blue) = (r.byte(), r.byte(), r.byte());
        let thread = if has_thread {
            Some(Thread { color: Color { red, green, blue } })
        } else {
            None
        };
        let n_sgs = r.u64();
        let mut stitch_groups = Vec::new();
        for _ in 0..n_sgs {
            let n_stitches = r.u64();
            let mut stitches = Vec::new();
            for _ in 0..n_stitches {
                stitches.push(Stitch { x: r.i64(), y: r.i64() });
            }
            stitch_groups.push(StitchGroup { stitches });
        }
        color_groups.push(ColorGroup { thread, stitch_groups });
    }
    Pattern { color_groups, attributes }
}

struct IdentityCodec;

impl PatternSink for IdentityCodec {
    fn write_pattern(&self, pattern: &Pattern) -> Result<Vec<u8>, CodecError> {
        Ok(encode(pattern))
    }
}

impl PatternSource for IdentityCodec {
    fn read_pattern(&self, data: &Vec<u8>) -> Result<Pattern, CodecError> {
        Ok(decode(data))
    }
}

/// Decodes like the identity codec, then drops the last stitch of every
/// stitch group.
struct DropLastStitchDecoder;

impl PatternSource for DropLastStitchDecoder {
    fn read_pattern(&self, data: &Vec<u8>) -> Result<Pattern, CodecError> {
        let mut p = decode(data);
        for cg in &mut p.color_groups {
            for sg in &mut cg.stitch_groups {
                sg.stitches.pop();
            }
        }
        Ok(p)
    }
}

/// Encodes like the identity codec, but discards the first attribute.
struct DropAttributeEncoder;

impl PatternSink for DropAttributeEncoder {
    fn write_pattern(&self, pattern: &Pattern) -> Result<Vec<u8>, CodecError> {
        let mut copy = Pattern {
            color_groups: pattern.color_groups.clone(),
            attributes: pattern.attributes.clone(),
        };
        if !copy.attributes.is_empty() {
            copy.attributes.remove(0);
        }
        Ok(encode(&copy))
    }
}

struct FailingEncoder;

impl PatternSink for FailingEncoder {
    fn write_pattern(&self, _pattern: &Pattern) -> Result<Vec<u8>, CodecError> {
        Err(CodecError { code: 42 })
    }
}

fn assert_same_pattern(a: &Pattern, b: &Pattern) {
    assert_eq!(a.attributes, b.attributes);
    assert_eq!(a.color_groups.len(), b.color_groups.len());
    for (ga, gb) in a.color_groups.iter().zip(b.color_groups.iter()) {
        assert_eq!(ga.thread, gb.thread);
        assert_eq!(ga.stitch_groups.len(), gb.stitch_groups.len());
        for (sa, sb) in ga.stitch_groups.iter().zip(gb.stitch_groups.iter()) {
            assert_eq!(sa.stitches, sb.stitches);
        }
    }
}

#[test]
fn zero_iterations_return_the_original_unchanged() {
    let p = sample_pattern();
    let result = test_read_write_pair(&IdentityCodec, &IdentityCodec, &p, 0);
    match result {
        Ok(out) => assert_same_pattern(&out, &p),
        Err(_) => panic!("no iteration may fail"),
    }
}

#[test]
fn identity_codec_passes_many_iterations() {
    let p = sample_pattern();
    let result = test_read_write_pair(&IdentityCodec, &IdentityCodec, &p, 3);
    match result {
        Ok(out) => {
            assert_eq!(out.flat_stitches(), p.flat_stitches());
            assert_same_pattern(&out, &p);
        },
        Err(_) => panic!("the identity codec must round-trip cleanly"),
    }
}

#[test]
fn dropped_stitch_is_reported_at_its_index() {
    let p = sample_pattern();
    // Flat baseline: (0,0) (1,2) (3,4) | (5,6) | (7,8) (9,10); the decoder
    // drops (3,4), (5,6) and (9,10), so the first mismatch is at index 2.
    let result = test_read_write_pair(&DropLastStitchDecoder, &IdentityCodec, &p, 1);
    match result {
        Err(VerifyError::Fidelity(iteration, report)) => {
            assert_eq!(iteration, 0);
            let d = report.stitch_divergence.expect("a stitch divergence must be reported");
            assert_eq!(d.index, 2);
            assert_eq!(d.original, Some(stitch(3, 4)));
            assert_eq!(d.decoded, Some(stitch(7, 8)));
        },
        _ => panic!("a stitch-dropping codec must fail fidelity in one iteration"),
    }
}

#[test]
fn prefix_truncation_is_reported_past_the_end() {
    let base = Pattern {
        color_groups: vec![group(None, vec![vec![stitch(1, 1), stitch(2, 2)]])],
        attributes: vec![],
    };
    let result = test_read_write_pair(&DropLastStitchDecoder, &IdentityCodec, &base, 1);
    match result {
        Err(VerifyError::Fidelity(_, report)) => {
            let d = report.stitch_divergence.expect("a stitch divergence must be reported");
            assert_eq!(d.index, 1);
            assert_eq!(d.original, Some(stitch(2, 2)));
            assert_eq!(d.decoded, None);
        },
        _ => panic!("truncation must fail fidelity"),
    }
}

#[test]
fn discarded_attribute_is_reported_missing_not_new() {
    let p = sample_pattern();
    let result = test_read_write_pair(&IdentityCodec, &DropAttributeEncoder, &p, 1);
    match result {
        Err(VerifyError::Fidelity(iteration, report)) => {
            assert_eq!(iteration, 0);
            assert_eq!(report.missing_attributes, vec![attr(1, 100)]);
            assert!(report.new_attributes.is_empty());
            assert!(report.stitch_divergence.is_none());
        },
        _ => panic!("attribute loss must fail fidelity"),
    }
}

#[test]
fn encode_failure_propagates_with_its_iteration() {
    let p = sample_pattern();
    let result = test_read_write_pair(&IdentityCodec, &FailingEncoder, &p, 5);
    match result {
        Err(VerifyError::Encode(iteration, e)) => {
            assert_eq!(iteration, 0);
            assert_eq!(e, CodecError { code: 42 });
        },
        _ => panic!("an encode error must propagate"),
    }
}

#[test]
fn check_iteration_of_equal_patterns_is_clean() {
    let p = sample_pattern();
    let q = decode(&encode(&p));
    let report = check_iteration(&p, &q);
    assert!(report.new_attributes.is_empty());
    assert!(report.missing_attributes.is_empty());
    assert!(report.stitch_divergence.is_none());
}

#[test]
fn check_iteration_separates_new_from_missing_attributes() {
    let p = sample_pattern();
    let mut q = decode(&encode(&p));
    q.attributes.remove(1);
    q.attributes.push(attr(9, 900));
    let report = check_iteration(&p, &q);
    assert_eq!(report.new_attributes, vec![attr(9, 900)]);
    assert_eq!(report.missing_attributes, vec![attr(2, 200)]);
    assert!(report.stitch_divergence.is_none());
}

#[test]
fn flat_stitches_concatenates_in_pattern_order() {
    let p = sample_pattern();
    let flat = p.flat_stitches();
    assert_eq!(
        flat,
        vec![stitch(0, 0), stitch(1, 2), stitch(3, 4), stitch(5, 6), stitch(7, 8), stitch(9, 10)]
    );
}
