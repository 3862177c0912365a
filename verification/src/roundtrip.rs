//! The round-trip verifier: repeatedly encodes a pattern through a codec
//! pair and decodes the result, diffing every generation against the
//! original baseline and reporting the first divergence.
//!
//! Comparisons are always made against the original pattern, never the
//! previous generation, so both one-shot corruption and slow drift are
//! caught. Each iteration first gathers the full diagnostic report (the
//! attribute drift in both directions and the first stitch mismatch) and
//! only then gates on it: a dirty report is fatal.

use vstd::prelude::*;
use crate::pattern::{Pattern, PatternAttribute, Stitch, attr_set, lemma_pattern_eq_same_stitches,
    pattern_eq, pattern_stitches};

verus! {

/// An encode or decode failure of the codec under test.
#[derive(Clone, Copy, PartialEq, Eq, Structural, Debug)]
pub struct CodecError {
    pub code: u64,
}

/// Decodes a pattern from its serialized form.
pub trait PatternSource {
    fn read_pattern(&self, data: &Vec<u8>) -> Result<Pattern, CodecError>;
}

/// Encodes a pattern into its serialized form.
pub trait PatternSink {
    fn write_pattern(&self, pattern: &Pattern) -> Result<Vec<u8>, CodecError>;
}

/// The first position where the decoded flat stitch sequence departs from
/// the baseline: the index and the two values, either of which is absent
/// when its sequence ends before the index.
#[derive(Clone, Copy, PartialEq, Eq, Structural, Debug)]
pub struct StitchDivergence {
    pub index: usize,
    pub original: Option<Stitch>,
    pub decoded: Option<Stitch>,
}

/// The diagnostics of one round-trip iteration: attributes only in the
/// decoded pattern, attributes only in the baseline, and the first stitch
/// mismatch, if any.
#[derive(Clone, Debug)]
pub struct IterationReport {
    pub new_attributes: Vec<PatternAttribute>,
    pub missing_attributes: Vec<PatternAttribute>,
    pub stitch_divergence: Option<StitchDivergence>,
}

/// How the verification run failed: a codec error while encoding or
/// decoding (with its iteration), or a dirty fidelity report (with its
/// iteration).
#[derive(Clone, Debug)]
pub enum VerifyError {
    Encode(usize, CodecError),
    Decode(usize, CodecError),
    Fidelity(usize, IterationReport),
}

/// The element of `s` at `i`, or nothing when `i` is past the end.
pub open spec fn option_at(s: Seq<Stitch>, i: int) -> Option<Stitch> {
    if 0 <= i < s.len() {
        Some(s[i])
    } else {
        None
    }
}

/// `d` is the first divergence of `dec` from `base`: the sequences agree
/// before `d.index` and differ there, where a sequence that has ended
/// contributes nothing.
pub open spec fn divergence_describes(d: StitchDivergence, base: Seq<Stitch>, dec: Seq<Stitch>) -> bool {
    &&& forall|i: int|
        0 <= i < d.index ==> i < base.len() && i < dec.len() && (#[trigger] base[i]) == dec[i]
    &&& d.original == option_at(base, d.index as int)
    &&& d.decoded == option_at(dec, d.index as int)
    &&& d.original != d.decoded
}

/// `r` is the faithful diff of `dec` against the baseline `base`: the
/// stitch divergence is absent exactly when the flat sequences are equal
/// and otherwise marks the first mismatch, and the two attribute lists
/// hold exactly the attributes on one side and not the other.
pub open spec fn report_describes(r: IterationReport, base: Pattern, dec: Pattern) -> bool {
    &&& match r.stitch_divergence {
        None => pattern_stitches(base) == pattern_stitches(dec),
        Some(d) => divergence_describes(d, pattern_stitches(base), pattern_stitches(dec)),
    }
    &&& forall|a: PatternAttribute|
        #[trigger] r.new_attributes@.contains(a) <==> attr_set(dec).contains(a) && !attr_set(
            base,
        ).contains(a)
    &&& forall|a: PatternAttribute|
        #[trigger] r.missing_attributes@.contains(a) <==> attr_set(base).contains(a) && !attr_set(
            dec,
        ).contains(a)
}

/// A report with no divergence of any kind.
pub open spec fn report_clean(r: IterationReport) -> bool {
    &&& r.new_attributes@.len() == 0
    &&& r.missing_attributes@.len() == 0
    &&& r.stitch_divergence is None
}

proof fn lemma_contains_push(s: Seq<PatternAttribute>, x: PatternAttribute, y: PatternAttribute)
    ensures
        s.push(x).contains(y) <==> s.contains(y) || y == x,
{
    if s.contains(y) {
        let i = choose|i: int| 0 <= i < s.len() && (#[trigger] s[i]) == y;
        assert(s.push(x)[i] == y);
    }
    assert(s.push(x)[s.len() as int] == x);
    if s.push(x).contains(y) {
        let i = choose|i: int| 0 <= i < s.push(x).len() && (#[trigger] s.push(x)[i]) == y;
        if i < s.len() {
            assert(s[i] == y);
        }
    }
}

proof fn lemma_contains_take_step(s: Seq<PatternAttribute>, i: int, y: PatternAttribute)
    requires
        0 <= i < s.len(),
    ensures
        s.take(i + 1).contains(y) <==> s.take(i).contains(y) || y == s[i],
{
    if s.take(i).contains(y) {
        let j = choose|j: int| 0 <= j < s.take(i).len() && (#[trigger] s.take(i)[j]) == y;
        assert(s.take(i + 1)[j] == y);
    }
    assert(s.take(i + 1)[i] == s[i]);
    if s.take(i + 1).contains(y) {
        let j = choose|j: int| 0 <= j < s.take(i + 1).len() && (#[trigger] s.take(i + 1)[j]) == y;
        if j < i {
            assert(s.take(i)[j] == y);
        }
    }
}

/// Whether `x` occurs in `v`.
fn contains_attr(v: &Vec<PatternAttribute>, x: PatternAttribute) -> (b: bool)
    ensures
        b == v@.contains(x),
{
    let mut i: usize = 0;
    while i < v.len()
        invariant
            0 <= i <= v.len(),
            !v@.take(i as int).contains(x),
        decreases v.len() - i,
    {
        if v[i].code == x.code && v[i].value == x.value {
            assert(v@[i as int] == x);
            return true;
        }
        proof {
            lemma_contains_take_step(v@, i as int, x);
        }
        i = i + 1;
    }
    proof {
        assert(v@.take(v@.len() as int) =~= v@);
    }
    false
}

/// The attributes of `from` that do not occur in `other`, in order of
/// first occurrence in `from`.
fn attrs_not_in(from: &Vec<PatternAttribute>, other: &Vec<PatternAttribute>) -> (r: Vec<
    PatternAttribute,
>)
    ensures
        forall|a: PatternAttribute|
            #[trigger] r@.contains(a) <==> from@.contains(a) && !other@.contains(a),
{
    let mut r: Vec<PatternAttribute> = Vec::new();
    let mut i: usize = 0;
    while i < from.len()
        invariant
            0 <= i <= from.len(),
            forall|a: PatternAttribute|
                #[trigger] r@.contains(a) <==> from@.take(i as int).contains(a)
                    && !other@.contains(a),
        decreases from.len() - i,
    {
        let x = from[i];
        let ghost r_old = r@;
        if !contains_attr(other, x) && !contains_attr(&r, x) {
            r.push(x);
        }
        proof {
            assert forall|a: PatternAttribute|
                #[trigger] r@.contains(a) <==> (from@.take(i + 1).contains(a) && !other@.contains(
                    a,
                )) by {
                lemma_contains_take_step(from@, i as int, a);
                if r@ != r_old {
                    lemma_contains_push(r_old, x, a);
                }
            }
        }
        i = i + 1;
    }
    proof {
        assert(from@.take(from@.len() as int) =~= from@);
    }
    r
}

/// Diffs one decoded generation against the original baseline: gathers the
/// attribute drift in both directions and the first stitch mismatch.
pub fn check_iteration(baseline: &Pattern, decoded: &Pattern) -> (r: IterationReport)
    ensures
        report_describes(r, *baseline, *decoded),
{
    let base_st = baseline.flat_stitches();
    let dec_st = decoded.flat_stitches();
    let mut divergence: Option<StitchDivergence> = None;
    let mut i: usize = 0;
    while i < base_st.len() && i < dec_st.len() && divergence.is_none()
        invariant
            0 <= i,
            i <= base_st@.len() || i <= dec_st@.len(),
            divergence is None ==> i <= base_st@.len() && i <= dec_st@.len(),
            divergence is None ==> forall|j: int|
                0 <= j < i ==> (#[trigger] base_st@[j]) == dec_st@[j],
            divergence matches Some(d) ==> divergence_describes(d, base_st@, dec_st@),
            base_st@ == pattern_stitches(*baseline),
            dec_st@ == pattern_stitches(*decoded),
        decreases base_st.len() + dec_st.len() - 2 * i + (if divergence is None {
            1int
        } else {
            0int
        }),
    {
        if base_st[i].x == dec_st[i].x && base_st[i].y == dec_st[i].y {
            i = i + 1;
        } else {
            divergence = Some(
                StitchDivergence {
                    index: i,
                    original: Some(base_st[i]),
                    decoded: Some(dec_st[i]),
                },
            );
        }
    }
    if divergence.is_none() {
        if i < base_st.len() {
            divergence = Some(
                StitchDivergence { index: i, original: Some(base_st[i]), decoded: None },
            );
        } else if i < dec_st.len() {
            divergence = Some(
                StitchDivergence { index: i, original: None, decoded: Some(dec_st[i]) },
            );
        }
    }
    proof {
        if divergence is None {
            assert(base_st@ =~= dec_st@);
        }
    }
    let new_attributes = attrs_not_in(&decoded.attributes, &baseline.attributes);
    let missing_attributes = attrs_not_in(&baseline.attributes, &decoded.attributes);
    IterationReport { new_attributes, missing_attributes, stitch_divergence: divergence }
}

/// Whether a report is clean: no attribute drift and no stitch mismatch.
pub fn is_clean(r: &IterationReport) -> (b: bool)
    ensures
        b == report_clean(*r),
{
    r.new_attributes.len() == 0 && r.missing_attributes.len() == 0
        && r.stitch_divergence.is_none()
}

/// A clean report certifies the generation: its flat stitch sequence and
/// attribute set equal the baseline's.
pub proof fn lemma_clean_report_matches(r: IterationReport, base: Pattern, dec: Pattern)
    requires
        report_describes(r, base, dec),
        report_clean(r),
    ensures
        pattern_stitches(dec) == pattern_stitches(base),
        attr_set(dec) == attr_set(base),
{
    assert forall|a: PatternAttribute| attr_set(dec).contains(a) implies attr_set(base).contains(
        a,
    ) by {
        if !attr_set(base).contains(a) {
            assert(r.new_attributes@.contains(a));
        }
    }
    assert forall|a: PatternAttribute| attr_set(base).contains(a) implies attr_set(dec).contains(
        a,
    ) by {
        if !attr_set(dec).contains(a) {
            assert(r.missing_attributes@.contains(a));
        }
    }
    assert(attr_set(dec) =~= attr_set(base));
}

/// A round trip that reproduces a structurally identical pattern yields a
/// clean report: no attribute drift and no stitch divergence.
pub proof fn lemma_identity_round_trip_clean(r: IterationReport, base: Pattern, dec: Pattern)
    requires
        report_describes(r, base, dec),
        pattern_eq(dec, base),
    ensures
        report_clean(r),
{
    lemma_pattern_eq_same_stitches(dec, base);
    match r.stitch_divergence {
        None => {
        },
        Some(d) => {
            assert(d.original == d.decoded);
        },
    }
    if r.new_attributes@.len() > 0 {
        assert(r.new_attributes@.contains(r.new_attributes@[0]));
    }
    if r.missing_attributes@.len() > 0 {
        assert(r.missing_attributes@.contains(r.missing_attributes@[0]));
    }
}

/// A decode that loses or invents stitches — its flat sequence has another
/// length — is always reported with a stitch divergence.
pub proof fn lemma_length_change_reported(r: IterationReport, base: Pattern, dec: Pattern)
    requires
        report_describes(r, base, dec),
        pattern_stitches(base).len() != pattern_stitches(dec).len(),
    ensures
        r.stitch_divergence is Some,
{
}

/// A decode that drops the final stitch of the flat sequence is reported
/// at exactly that index — the first dropped stitch — with the baseline
/// value present and the decoded value absent.
pub proof fn lemma_dropped_last_stitch_reported(r: IterationReport, base: Pattern, dec: Pattern)
    requires
        report_describes(r, base, dec),
        pattern_stitches(base).len() > 0,
        pattern_stitches(dec) == pattern_stitches(base).take(
            pattern_stitches(base).len() - 1,
        ),
    ensures
        r.stitch_divergence matches Some(d) && {
            &&& d.index == pattern_stitches(base).len() - 1
            &&& d.original == Some(pattern_stitches(base).last())
            &&& d.decoded is None
        },
{
    let bs = pattern_stitches(base);
    let ds = pattern_stitches(dec);
    assert(ds.len() == bs.len() - 1);
    match r.stitch_divergence {
        None => {
            assert(bs == ds);
            assert(false);
        },
        Some(d) => {
            if d.index < bs.len() - 1 {
                assert(ds[d.index as int] == bs[d.index as int]);
                assert(d.original == d.decoded);
                assert(false);
            }
            if d.index > bs.len() - 1 {
                assert(bs[bs.len() - 1] == ds[bs.len() - 1]);
                assert(false);
            }
            assert(bs[bs.len() - 1] == bs.last());
        },
    }
}

/// An encode that discards one attribute of the baseline is reported as
/// missing, distinct from any new-attribute report: nothing is new.
pub proof fn lemma_discarded_attribute_reported(
    r: IterationReport,
    base: Pattern,
    dec: Pattern,
    a: PatternAttribute,
)
    requires
        report_describes(r, base, dec),
        attr_set(base).contains(a),
        !attr_set(dec).contains(a),
        attr_set(dec).subset_of(attr_set(base)),
    ensures
        r.missing_attributes@.contains(a),
        r.new_attributes@.len() == 0,
{
    if r.new_attributes@.len() > 0 {
        let b = r.new_attributes@[0];
        assert(r.new_attributes@.contains(b));
        assert(attr_set(dec).contains(b) && !attr_set(base).contains(b));
    }
}

/// Runs `iterations` encode-then-decode cycles of the codec pair under
/// test over a private copy of `orig_pattern`, diffing every generation
/// against the original baseline. A codec failure or a dirty report stops
/// the run with that iteration's diagnostics; otherwise the final
/// generation, certified to match the baseline, is returned.
pub fn test_read_write_pair<L: PatternSource, W: PatternSink>(
    loader: &L,
    writer: &W,
    orig_pattern: &Pattern,
    iterations: usize,
) -> (r: Result<Pattern, VerifyError>)
    ensures
        iterations == 0 ==> (r matches Ok(p) && pattern_eq(p, *orig_pattern)),
        r matches Ok(p) ==> pattern_stitches(p) == pattern_stitches(*orig_pattern) && attr_set(p)
            == attr_set(*orig_pattern),
        r matches Err(VerifyError::Fidelity(it, rep)) ==> !report_clean(rep) && it < iterations,
        r matches Err(VerifyError::Encode(it, e)) ==> it < iterations,
        r matches Err(VerifyError::Decode(it, e)) ==> it < iterations,
{
    let working = orig_pattern.deep_clone();
    proof {
        lemma_pattern_eq_same_stitches(working, *orig_pattern);
    }
    if iterations == 0 {
        return Ok(working);
    }
    let mut pattern = working;
    let mut it: usize = 0;
    while it < iterations
        invariant
            0 <= it <= iterations,
            pattern_stitches(pattern) == pattern_stitches(*orig_pattern),
            attr_set(pattern) == attr_set(*orig_pattern),
        decreases iterations - it,
    {
        let encoded = match writer.write_pattern(&pattern) {
            Ok(b) => b,
            Err(e) => {
                return Err(VerifyError::Encode(it, e));
            },
        };
        let decoded = match loader.read_pattern(&encoded) {
            Ok(p) => p,
            Err(e) => {
                return Err(VerifyError::Decode(it, e));
            },
        };
        let report = check_iteration(orig_pattern, &decoded);
        if !is_clean(&report) {
            return Err(VerifyError::Fidelity(it, report));
        }
        proof {
            lemma_clean_report_matches(report, *orig_pattern, decoded);
        }
        pattern = decoded;
        it = it + 1;
    }
    Ok(pattern)
}

} // verus!
