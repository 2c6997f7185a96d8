//! Shaping a line: the text is cut into the slices of its runs, each slice is
//! shaped by the engine in the face of its run, and the glyphs that come
//! back are placed along the baseline.

use crate::font::Face;
use crate::font::FeatureSetting;
use crate::font::FontRun;
use crate::font::GlyphId;
use crate::geometry::pixels_sum;
use crate::geometry::scale_units;
use crate::geometry::scaled_units;
use crate::geometry::Pixels;
use crate::geometry::Point;
use crate::line_layout::shaped_runs_view;
use crate::line_layout::GlyphList;
use crate::line_layout::MAX_RESERVED_GLYPHS;
use crate::line_layout::LineLayout;
use crate::line_layout::LineLayoutView;
use crate::line_layout::ShapedGlyph;
use crate::line_layout::ShapedRun;
use crate::line_layout::ShapedRunView;
use vstd::prelude::*;
use vstd::string::StringSliceAdditionalSpecFns;
use vstd::utf8::encode_utf8_valid_utf8;
use vstd::utf8::is_char_boundary;
use vstd::utf8::is_char_boundary_iff_not_is_continuation_byte;
use vstd::utf8::is_char_boundary_start_end_of_seq;
use vstd::utf8::valid_utf8;
use vstd::utf8::valid_utf8_split;

verus! {

/// One glyph as the shaping engine reports it.
#[derive(Clone, Copy, Debug, PartialEq, Eq)]
pub struct EngineGlyph {
    /// The glyph number within the face; 0 is the missing glyph.
    pub glyph_id: u32,
    /// The byte offset within the shaped slice that the glyph belongs to.
    pub cluster: u32,
    /// The horizontal advance in 64ths of a pixel.
    pub x_advance: i32,
}

/// The glyph number with which the engine reports a missing glyph.
pub const MISSING_GLYPH: u32 = 0;

/// The longest slice, in bytes, that the engine takes: an eighth of its
/// signed 32-bit length. It leaves a longer one out of its buffer.
pub const MAX_SLICE_LEN: usize = 0x0fff_ffff;

/// The tag `kern`.
pub const TAG_KERNING: [u8; 4] = [0x6b, 0x65, 0x72, 0x6e];

/// The tag `liga`.
pub const TAG_STANDARD_LIGATURES: [u8; 4] = [0x6c, 0x69, 0x67, 0x61];

/// The tag `clig`.
pub const TAG_CONTEXTUAL_LIGATURES: [u8; 4] = [0x63, 0x6c, 0x69, 0x67];

/// The features every line is shaped with: kerning, standard ligatures and
/// contextual ligatures, each switched on for the whole slice.
pub open spec fn default_feature_settings() -> Seq<FeatureSetting> {
    seq![
        FeatureSetting { tag: TAG_KERNING, value: 1, start: 0 },
        FeatureSetting { tag: TAG_STANDARD_LIGATURES, value: 1, start: 0 },
        FeatureSetting { tag: TAG_CONTEXTUAL_LIGATURES, value: 1, start: 0 },
    ]
}

/// Builds the default feature set.
pub fn default_features() -> (features: Vec<FeatureSetting>)
    ensures
        features@ == default_feature_settings(),
{
    let mut features: Vec<FeatureSetting> = Vec::with_capacity(3);
    features.push(FeatureSetting { tag: TAG_KERNING, value: 1, start: 0 });
    features.push(FeatureSetting { tag: TAG_STANDARD_LIGATURES, value: 1, start: 0 });
    features.push(FeatureSetting { tag: TAG_CONTEXTUAL_LIGATURES, value: 1, start: 0 });
    assert(features@ =~= default_feature_settings());
    features
}

/// `harfbuzz_rs::shape` on one slice: a face is made from the font file's
/// bytes (`Face::from_bytes`, `Font::new`), the slice is put into a buffer
/// (`UnicodeBuffer::add_str`) whose script, direction and language the engine
/// guesses, and the glyphs come back in the engine's order, each with its
/// number, its cluster and its horizontal advance.
///
/// Nothing is promised of the glyphs: the engine guesses the language from
/// the process's locale, so even the same slice may shape differently.
///
/// The slice must hold at least one byte and no more than the engine takes.
/// Of any other slice the engine puts nothing into its buffer, and a buffer
/// that never held anything has no glyph arrays to read from. The same is
/// so where the engine finds no memory for its buffer: as with `Vec::push`,
/// running out of memory is outside the contract.
#[verifier::external_body]
fn shape_with_engine(
    font_data: &Vec<u8>,
    face_index: u32,
    text: &str,
    features: &Vec<FeatureSetting>,
) -> (glyphs: Vec<EngineGlyph>)
    requires
        0 < text.spec_bytes().len() <= MAX_SLICE_LEN,
{
    let font = harfbuzz_rs::Font::new(harfbuzz_rs::Face::from_bytes(font_data, face_index));
    let features: Vec<harfbuzz_rs::Feature> =
        features.iter().map(|f| harfbuzz_rs::Feature::new(&f.tag, f.value, f.start..)).collect();
    let buffer = harfbuzz_rs::UnicodeBuffer::new().add_str(text).guess_segment_properties();
    let shaped = harfbuzz_rs::shape(&font, buffer, &features);
    let positions = shaped.get_glyph_positions().iter();
    shaped.get_glyph_infos().iter().zip(positions).map(|(info, position)| EngineGlyph {
        glyph_id: info.codepoint,
        cluster: info.cluster,
        x_advance: position.x_advance,
    }).collect()
}

/// The byte offset at which run `i` starts: the lengths of the runs before it.
pub open spec fn run_start(runs: Seq<FontRun>, i: int) -> int
    decreases i,
{
    if i <= 0 {
        0
    } else {
        run_start(runs, i - 1) + runs[i - 1].len as int
    }
}

/// The byte offset just past run `i`.
pub open spec fn run_end(runs: Seq<FontRun>, i: int) -> int {
    run_start(runs, i) + runs[i].len as int
}

/// Whether `len` bytes from `start` are a slice of the text: within it, and
/// cut between characters at both ends.
pub open spec fn text_has_slice(text: Seq<u8>, start: int, len: int) -> bool {
    &&& 0 <= start
    &&& 0 <= len
    &&& start + len <= text.len()
    &&& is_char_boundary(text, start)
    &&& is_char_boundary(text, start + len)
}

/// The bytes of run `i`.
pub open spec fn run_bytes(text: Seq<u8>, runs: Seq<FontRun>, i: int) -> Seq<u8> {
    text.subrange(run_start(runs, i), run_end(runs, i))
}

/// Whether run `i` is handed to the engine: its slice lies in the text, is
/// not empty and is not longer than the engine takes.
pub open spec fn run_is_shaped(text: Seq<u8>, runs: Seq<FontRun>, i: int) -> bool {
    &&& text_has_slice(text, run_start(runs, i), runs[i].len as int)
    &&& 0 < runs[i].len <= MAX_SLICE_LEN
}

/// The bytes of the first `n` runs, one slice after the other.
pub open spec fn consumed_bytes(text: Seq<u8>, runs: Seq<FontRun>, n: int) -> Seq<u8>
    decreases n,
{
    if n <= 0 {
        Seq::<u8>::empty()
    } else {
        consumed_bytes(text, runs, n - 1) + run_bytes(text, runs, n - 1)
    }
}

/// Run starts never decrease.
pub proof fn lemma_run_start_monotonic(runs: Seq<FontRun>, i: int, j: int)
    requires
        0 <= i <= j,
    ensures
        0 <= run_start(runs, i) <= run_start(runs, j),
    decreases j,
{
    if i < j {
        lemma_run_start_monotonic(runs, i, j - 1);
    } else if 0 < i {
        lemma_run_start_monotonic(runs, i - 1, i - 1);
    }
}

/// The slices of the first `n` runs, put together, are the text up to the
/// start of run `n`, as long as that start lies within the text.
pub proof fn lemma_consumed_is_prefix(text: Seq<u8>, runs: Seq<FontRun>, n: int)
    requires
        0 <= n <= runs.len(),
        run_start(runs, n) <= text.len(),
    ensures
        consumed_bytes(text, runs, n) == text.subrange(0, run_start(runs, n)),
    decreases n,
{
    if n <= 0 {
        assert(consumed_bytes(text, runs, n) =~= text.subrange(0, 0));
    } else {
        lemma_run_start_monotonic(runs, 0, n - 1);
        lemma_consumed_is_prefix(text, runs, n - 1);
        assert(consumed_bytes(text, runs, n) =~= text.subrange(0, run_start(runs, n)));
    }
}

/// The partition law: when the lengths of the runs add up to the length of
/// the text, every run's slice lies within the text, each slice starts where
/// the one before it ends, and the slices put together give back the text.
pub proof fn lemma_runs_partition_text(text: Seq<u8>, runs: Seq<FontRun>)
    requires
        run_start(runs, runs.len() as int) == text.len(),
    ensures
        consumed_bytes(text, runs, runs.len() as int) == text,
        forall|i: int|
            0 <= i < runs.len() ==> 0 <= #[trigger] run_start(runs, i) && run_end(runs, i)
                <= text.len(),
        forall|i: int| 0 <= i < runs.len() ==> run_start(runs, i + 1) == #[trigger] run_end(runs, i),
{
    lemma_consumed_is_prefix(text, runs, runs.len() as int);
    assert(text.subrange(0, text.len() as int) =~= text);
    assert forall|i: int| 0 <= i < runs.len() implies 0 <= #[trigger] run_start(runs, i)
        && run_end(runs, i) <= text.len() by {
        lemma_run_start_monotonic(runs, 0, i);
        lemma_run_start_monotonic(runs, i + 1, runs.len() as int);
    }
}

/// A character boundary of a text is one of every prefix that ends on a
/// boundary at or after it.
proof fn lemma_boundary_in_prefix(text: Seq<u8>, start: int, end: int)
    requires
        valid_utf8(text),
        0 <= start <= end <= text.len(),
        is_char_boundary(text, start),
        is_char_boundary(text, end),
    ensures
        valid_utf8(text.subrange(0, end)),
        is_char_boundary(text.subrange(0, end), start),
{
    let prefix = text.subrange(0, end);
    valid_utf8_split(text, end);
    is_char_boundary_start_end_of_seq(prefix);
    if 0 < start < end {
        is_char_boundary_iff_not_is_continuation_byte(text, start);
        is_char_boundary_iff_not_is_continuation_byte(prefix, start);
    }
}

/// Cuts `len` bytes from `start` out of the text, if they are a slice of it.
pub fn slice_text<'a>(text: &'a str, start: usize, len: usize) -> (slice: Option<&'a str>)
    ensures
        slice.is_some() == text_has_slice(text.spec_bytes(), start as int, len as int),
        slice matches Some(s) ==> s.spec_bytes() == text.spec_bytes().subrange(
            start as int,
            start + len,
        ),
{
    let total = text.as_bytes().len();
    if start > total || len > total - start {
        return None;
    }
    let end = start + len;
    if !text.is_char_boundary(start) || !text.is_char_boundary(end) {
        return None;
    }
    proof {
        encode_utf8_valid_utf8(text@);
        lemma_boundary_in_prefix(text.spec_bytes(), start as int, end as int);
    }
    let (head, _) = text.split_at(end);
    let (_, slice) = head.split_at(start);
    assert(slice.spec_bytes() =~= text.spec_bytes().subrange(start as int, start + len));
    Some(slice)
}

/// Whether the engine's glyph is drawn: it is not the missing glyph, and the
/// face resolves its advance.
pub open spec fn placeable(face: Face, glyph: EngineGlyph) -> bool {
    glyph.glyph_id != MISSING_GLYPH && face.advance_of(GlyphId(glyph.glyph_id)).is_some()
}

/// How far one glyph moves the pen. A glyph that is drawn moves it by the
/// face's own advance for the glyph, scaled to the font size; one that is not
/// drawn moves it by the advance that the engine reports.
pub open spec fn glyph_advance(face: Face, font_size: Pixels, glyph: EngineGlyph) -> int {
    if placeable(face, glyph) {
        scaled_units(
            face.advance_of(GlyphId(glyph.glyph_id)).unwrap().width as int,
            font_size.0 as int,
            face.metrics.units_per_em as int,
        )
    } else {
        glyph.x_advance as int
    }
}

/// The pen position after the glyphs of a run, from `start`.
pub open spec fn pen_after(face: Face, font_size: Pixels, start: int, glyphs: Seq<EngineGlyph>) -> int
    decreases glyphs.len(),
{
    if glyphs.len() == 0 {
        start
    } else {
        pixels_sum(
            pen_after(face, font_size, start, glyphs.drop_last()),
            glyph_advance(face, font_size, glyphs.last()),
        )
    }
}

/// The glyph that is drawn for the engine's glyph with the pen at `pen`.
pub open spec fn placed_glyph(glyph: EngineGlyph, pen: int) -> ShapedGlyph {
    ShapedGlyph {
        id: GlyphId(glyph.glyph_id),
        position: Point { x: Pixels(pen as i64), y: Pixels(0) },
        index: glyph.cluster as usize,
        is_emoji: false,
    }
}

/// The glyphs drawn for a run whose pen starts at `start`: each drawn glyph
/// of the engine, in the engine's order, at the pen position reached by all
/// glyphs before it.
pub open spec fn placed_glyphs(
    face: Face,
    font_size: Pixels,
    start: int,
    glyphs: Seq<EngineGlyph>,
) -> Seq<ShapedGlyph>
    decreases glyphs.len(),
{
    if glyphs.len() == 0 {
        Seq::<ShapedGlyph>::empty()
    } else {
        let before = placed_glyphs(face, font_size, start, glyphs.drop_last());
        if placeable(face, glyphs.last()) {
            before.push(
                placed_glyph(glyphs.last(), pen_after(face, font_size, start, glyphs.drop_last())),
            )
        } else {
            before
        }
    }
}

/// Every face keeps the unit convention.
pub open spec fn faces_wf(faces: Seq<Face>) -> bool {
    forall|i: int| 0 <= i < faces.len() ==> (#[trigger] faces[i]).wf()
}

/// Every run names a loaded face.
pub open spec fn runs_registered(faces: Seq<Face>, runs: Seq<FontRun>) -> bool {
    forall|i: int| 0 <= i < runs.len() ==> (#[trigger] runs[i]).font_id.0 < faces.len()
}

/// The face of run `i`.
pub open spec fn run_face(faces: Seq<Face>, runs: Seq<FontRun>, i: int) -> Face {
    faces[runs[i].font_id.0 as int]
}

/// The pen position after the first `n` runs.
pub open spec fn line_pen(
    faces: Seq<Face>,
    font_size: Pixels,
    runs: Seq<FontRun>,
    shaped: Seq<Seq<EngineGlyph>>,
    n: int,
) -> int
    decreases n,
{
    if n <= 0 {
        0
    } else {
        pen_after(
            run_face(faces, runs, n - 1),
            font_size,
            line_pen(faces, font_size, runs, shaped, n - 1),
            shaped[n - 1],
        )
    }
}

/// The shaped runs of the first `n` runs: one for each run for which the
/// engine reported any glyph, with the glyphs drawn for it.
pub open spec fn line_runs(
    faces: Seq<Face>,
    font_size: Pixels,
    runs: Seq<FontRun>,
    shaped: Seq<Seq<EngineGlyph>>,
    n: int,
) -> Seq<ShapedRunView>
    decreases n,
{
    if n <= 0 {
        Seq::<ShapedRunView>::empty()
    } else {
        let before = line_runs(faces, font_size, runs, shaped, n - 1);
        if shaped[n - 1].len() == 0 {
            before
        } else {
            before.push(
                ShapedRunView {
                    font_id: runs[n - 1].font_id,
                    glyphs: placed_glyphs(
                        run_face(faces, runs, n - 1),
                        font_size,
                        line_pen(faces, font_size, runs, shaped, n - 1),
                        shaped[n - 1],
                    ),
                },
            )
        }
    }
}

/// The ascent of one face at the font size.
pub open spec fn scaled_ascent(face: Face, font_size: Pixels) -> int {
    scaled_units(face.metrics.ascent as int, font_size.0 as int, face.metrics.units_per_em as int)
}

/// The descent of one face at the font size, as a distance below the baseline.
pub open spec fn scaled_descent(face: Face, font_size: Pixels) -> int {
    scaled_units(
        -(face.metrics.descent as int),
        font_size.0 as int,
        face.metrics.units_per_em as int,
    )
}

/// The largest ascent among the faces of the first `n` runs, and at least 0.
pub open spec fn line_ascent(faces: Seq<Face>, font_size: Pixels, runs: Seq<FontRun>, n: int) -> int
    decreases n,
{
    if n <= 0 {
        0
    } else {
        let before = line_ascent(faces, font_size, runs, n - 1);
        let own = scaled_ascent(run_face(faces, runs, n - 1), font_size);
        if before >= own {
            before
        } else {
            own
        }
    }
}

/// The largest descent among the faces of the first `n` runs, and at least 0.
pub open spec fn line_descent(faces: Seq<Face>, font_size: Pixels, runs: Seq<FontRun>, n: int) -> int
    decreases n,
{
    if n <= 0 {
        0
    } else {
        let before = line_descent(faces, font_size, runs, n - 1);
        let own = scaled_descent(run_face(faces, runs, n - 1), font_size);
        if before >= own {
            before
        } else {
            own
        }
    }
}

/// The layout of a line, given what the engine reported for each run.
pub open spec fn line_layout_spec(
    faces: Seq<Face>,
    text_len: usize,
    font_size: Pixels,
    runs: Seq<FontRun>,
    shaped: Seq<Seq<EngineGlyph>>,
) -> LineLayoutView {
    let n = runs.len() as int;
    LineLayoutView {
        font_size,
        width: Pixels(line_pen(faces, font_size, runs, shaped, n) as i64),
        ascent: Pixels(line_ascent(faces, font_size, runs, n) as i64),
        descent: Pixels(line_descent(faces, font_size, runs, n) as i64),
        runs: line_runs(faces, font_size, runs, shaped, n),
        len: text_len,
    }
}

/// What the engine reported for each run, as values.
pub open spec fn outputs_view(shaped: Seq<Vec<EngineGlyph>>) -> Seq<Seq<EngineGlyph>> {
    Seq::new(shaped.len(), |i: int| shaped[i]@)
}

/// What can be said of the engine's reports for a line whatever the engine
/// does: there is one for each run, and it is empty for each run that is not
/// handed to the engine.
pub open spec fn is_engine_outcome(
    text: Seq<u8>,
    runs: Seq<FontRun>,
    shaped: Seq<Seq<EngineGlyph>>,
) -> bool {
    &&& shaped.len() == runs.len()
    &&& forall|i: int|
        0 <= i < runs.len() && !run_is_shaped(text, runs, i) ==> (#[trigger] shaped[i]).len() == 0
}

/// Places the glyphs that the engine reported for one run, with the pen at
/// `start`. Returns the glyphs drawn and the pen position after the run.
pub fn layout_run(face: &Face, font_size: Pixels, start: Pixels, glyphs: &Vec<EngineGlyph>) -> (placed:
    (GlyphList, Pixels))
    requires
        face.wf(),
    ensures
        placed.0@ == placed_glyphs(*face, font_size, start.0 as int, glyphs@),
        placed.1.0 as int == pen_after(*face, font_size, start.0 as int, glyphs@),
{
    let reserved = if glyphs.len() <= MAX_RESERVED_GLYPHS {
        glyphs.len()
    } else {
        MAX_RESERVED_GLYPHS
    };
    let mut list = GlyphList::with_capacity(reserved);
    let mut pen = start;
    let mut k: usize = 0;
    while k < glyphs.len()
        invariant
            k <= glyphs@.len(),
            face.wf(),
            list@ == placed_glyphs(*face, font_size, start.0 as int, glyphs@.take(k as int)),
            pen.0 as int == pen_after(*face, font_size, start.0 as int, glyphs@.take(k as int)),
        decreases glyphs@.len() - k,
    {
        let glyph = glyphs[k];
        proof {
            assert(glyphs@.take(k + 1).drop_last() =~= glyphs@.take(k as int));
            assert(glyphs@.take(k + 1).last() == glyphs@[k as int]);
        }
        let advance = if glyph.glyph_id != MISSING_GLYPH {
            face.advance(GlyphId(glyph.glyph_id))
        } else {
            None
        };
        match advance {
            Some(advance) => {
                list.push(
                    ShapedGlyph {
                        id: GlyphId(glyph.glyph_id),
                        position: Point { x: pen, y: Pixels::zero() },
                        index: glyph.cluster as usize,
                        is_emoji: false,
                    },
                );
                let step = scale_units(advance.width as i64, font_size, face.metrics.units_per_em);
                pen = pen.saturating_add(step);
            },
            None => {
                pen = pen.saturating_add(Pixels(glyph.x_advance as i64));
            },
        }
        k = k + 1;
    }
    assert(glyphs@.take(k as int) =~= glyphs@);
    (list, pen)
}

/// Lays out a line from what the engine reported for each of its runs.
///
/// For each run in order, the line's ascent and descent take in those of the
/// run's face, and the run's glyphs are placed from where the run before it
/// left the pen. A run for which the engine reported nothing leaves no shaped
/// run behind.
pub fn assemble_line(
    faces: &Vec<Face>,
    text_len: usize,
    font_size: Pixels,
    runs: &[FontRun],
    shaped: &Vec<Vec<EngineGlyph>>,
) -> (layout: LineLayout)
    requires
        faces_wf(faces@),
        runs_registered(faces@, runs@),
        shaped@.len() == runs@.len(),
    ensures
        layout@ == line_layout_spec(faces@, text_len, font_size, runs@, outputs_view(shaped@)),
{
    let ghost outputs = outputs_view(shaped@);
    let mut x_offset = Pixels::zero();
    let mut ascent = Pixels::zero();
    let mut descent = Pixels::zero();
    let mut out: Vec<ShapedRun> = Vec::with_capacity(runs.len());
    let mut i: usize = 0;
    while i < runs.len()
        invariant
            i <= runs@.len(),
            faces_wf(faces@),
            runs_registered(faces@, runs@),
            shaped@.len() == runs@.len(),
            outputs == outputs_view(shaped@),
            x_offset.0 as int == line_pen(faces@, font_size, runs@, outputs, i as int),
            ascent.0 as int == line_ascent(faces@, font_size, runs@, i as int),
            descent.0 as int == line_descent(faces@, font_size, runs@, i as int),
            shaped_runs_view(out@) == line_runs(faces@, font_size, runs@, outputs, i as int),
        decreases runs@.len() - i,
    {
        let run = runs[i];
        assert(runs@[i as int].font_id.0 < faces@.len());
        let face = &faces[run.font_id.0];
        assert(face.wf());
        let metrics = face.metrics;
        ascent = ascent.max(scale_units(metrics.ascent as i64, font_size, metrics.units_per_em));
        descent = descent.max(
            scale_units(-(metrics.descent as i64), font_size, metrics.units_per_em),
        );
        let glyphs = &shaped[i];
        assert(outputs[i as int] == glyphs@);
        let (list, pen) = layout_run(face, font_size, x_offset, glyphs);
        if glyphs.len() > 0 {
            let ghost before = shaped_runs_view(out@);
            out.push(ShapedRun { font_id: run.font_id, glyphs: list });
            assert(shaped_runs_view(out@) =~= before.push(
                ShapedRunView { font_id: run.font_id, glyphs: list@ },
            ));
        }
        x_offset = pen;
        i = i + 1;
    }
    let layout = LineLayout { font_size, width: x_offset, ascent, descent, runs: out, len: text_len };
    layout
}

/// Cuts the text into the slices of its runs: each run's slice starts where
/// the slice of the run before it ends, the first at the start of the text.
/// A run has no slice where its bytes do not lie in the text, or would be cut
/// within a character.
pub fn split_runs<'a>(text: &'a str, runs: &[FontRun]) -> (slices: Vec<Option<&'a str>>)
    ensures
        slices@.len() == runs@.len(),
        forall|i: int|
            0 <= i < runs@.len() ==> match #[trigger] slices@[i] {
                Some(slice) => text_has_slice(
                    text.spec_bytes(),
                    run_start(runs@, i),
                    runs@[i].len as int,
                ) && slice.spec_bytes() == run_bytes(text.spec_bytes(), runs@, i),
                None => !text_has_slice(text.spec_bytes(), run_start(runs@, i), runs@[i].len as int),
            },
{
    let total = text.as_bytes().len();
    let mut slices: Vec<Option<&'a str>> = Vec::with_capacity(runs.len());
    let mut utf8_offset: Option<usize> = Some(0);
    let mut i: usize = 0;
    while i < runs.len()
        invariant
            i <= runs@.len(),
            total == text.spec_bytes().len(),
            slices@.len() == i,
            match utf8_offset {
                Some(offset) => offset as int == run_start(runs@, i as int) && offset <= total,
                None => run_start(runs@, i as int) > total,
            },
            forall|j: int|
                0 <= j < i ==> match #[trigger] slices@[j] {
                    Some(slice) => text_has_slice(
                        text.spec_bytes(),
                        run_start(runs@, j),
                        runs@[j].len as int,
                    ) && slice.spec_bytes() == run_bytes(text.spec_bytes(), runs@, j),
                    None => !text_has_slice(
                        text.spec_bytes(),
                        run_start(runs@, j),
                        runs@[j].len as int,
                    ),
                },
        decreases runs@.len() - i,
    {
        let run = runs[i];
        let slice = match utf8_offset {
            Some(offset) => slice_text(text, offset, run.len),
            None => None,
        };
        slices.push(slice);
        utf8_offset = match utf8_offset {
            Some(offset) => if run.len <= total - offset {
                Some(offset + run.len)
            } else {
                None
            },
            None => None,
        };
        i = i + 1;
    }
    slices
}

/// Hands each run's slice of the text to the engine, in the face of the run.
///
/// The slices are those of `split_runs`. A run that has no slice, or whose
/// slice is empty or longer than the engine takes, is not handed on, and
/// nothing is reported for it.
pub fn shape_runs(faces: &Vec<Face>, text: &str, runs: &[FontRun]) -> (shaped: Vec<Vec<EngineGlyph>>)
    requires
        runs_registered(faces@, runs@),
    ensures
        is_engine_outcome(text.spec_bytes(), runs@, outputs_view(shaped@)),
{
    let features = default_features();
    let slices = split_runs(text, runs);
    let mut shaped: Vec<Vec<EngineGlyph>> = Vec::with_capacity(runs.len());
    let mut i: usize = 0;
    while i < runs.len()
        invariant
            i <= runs@.len(),
            runs_registered(faces@, runs@),
            slices@.len() == runs@.len(),
            forall|j: int|
                0 <= j < runs@.len() ==> match #[trigger] slices@[j] {
                    Some(slice) => text_has_slice(
                        text.spec_bytes(),
                        run_start(runs@, j),
                        runs@[j].len as int,
                    ) && slice.spec_bytes() == run_bytes(text.spec_bytes(), runs@, j),
                    None => !text_has_slice(
                        text.spec_bytes(),
                        run_start(runs@, j),
                        runs@[j].len as int,
                    ),
                },
            shaped@.len() == i,
            forall|j: int|
                0 <= j < i && !run_is_shaped(text.spec_bytes(), runs@, j) ==> (#[trigger] shaped@[j])@.len()
                    == 0,
        decreases runs@.len() - i,
    {
        let run = runs[i];
        assert(runs@[i as int].font_id.0 < faces@.len());
        let glyphs = match slices[i] {
            Some(slice) => {
                let slice_len = slice.as_bytes().len();
                if 0 < slice_len && slice_len <= MAX_SLICE_LEN {
                    let face = &faces[run.font_id.0];
                    shape_with_engine(&face.data, face.index, slice, &features)
                } else {
                    Vec::new()
                }
            },
            None => Vec::new(),
        };
        assert(!run_is_shaped(text.spec_bytes(), runs@, i as int) ==> glyphs@.len() == 0);
        shaped.push(glyphs);
        i = i + 1;
    }
    assert forall|j: int|
        0 <= j < runs@.len() && !run_is_shaped(text.spec_bytes(), runs@, j) implies (
    #[trigger] outputs_view(shaped@)[j]).len() == 0 by {
        assert(outputs_view(shaped@)[j] == shaped@[j]@);
    }
    shaped
}

/// With nothing reported for any of the first `n` runs, the pen has not
/// moved and no shaped run has been made.
pub proof fn lemma_unshaped_runs_leave_nothing(
    faces: Seq<Face>,
    font_size: Pixels,
    runs: Seq<FontRun>,
    shaped: Seq<Seq<EngineGlyph>>,
    n: int,
)
    requires
        0 <= n <= runs.len(),
        shaped.len() == runs.len(),
        forall|i: int| 0 <= i < n ==> (#[trigger] shaped[i]).len() == 0,
    ensures
        line_pen(faces, font_size, runs, shaped, n) == 0,
        line_runs(faces, font_size, runs, shaped, n).len() == 0,
    decreases n,
{
    if n > 0 {
        lemma_unshaped_runs_leave_nothing(faces, font_size, runs, shaped, n - 1);
        assert(shaped[n - 1].len() == 0);
    }
}

/// The ascent and the descent of a line are pixel lengths, and neither is
/// negative.
pub proof fn lemma_line_extent_in_range(
    faces: Seq<Face>,
    font_size: Pixels,
    runs: Seq<FontRun>,
    n: int,
)
    ensures
        0 <= line_ascent(faces, font_size, runs, n) <= i64::MAX,
        0 <= line_descent(faces, font_size, runs, n) <= i64::MAX,
    decreases n,
{
    if n > 0 {
        lemma_line_extent_in_range(faces, font_size, runs, n - 1);
    }
}

/// Shapes one line of text.
///
/// The text is cut into the slices of `runs`, each slice is shaped in the
/// face of its run with the default features, and the glyphs are placed from
/// left to right along the baseline. The engine alone decides which glyphs
/// a slice gives, so the layout is stated for whatever it reports: see
/// `assemble_line` for the layout that follows from given reports.
pub fn layout_line(faces: &Vec<Face>, text: &str, font_size: Pixels, runs: &[FontRun]) -> (layout:
    LineLayout)
    requires
        faces_wf(faces@),
        runs_registered(faces@, runs@),
    ensures
        layout.len == text.spec_bytes().len(),
        layout.font_size == font_size,
        layout.ascent.0 == line_ascent(faces@, font_size, runs@, runs@.len() as int),
        layout.descent.0 == line_descent(faces@, font_size, runs@, runs@.len() as int),
        exists|shaped: Seq<Seq<EngineGlyph>>| #[trigger]
            is_engine_outcome(text.spec_bytes(), runs@, shaped) && layout@ == line_layout_spec(
                faces@,
                layout.len,
                font_size,
                runs@,
                shaped,
            ),
        text.spec_bytes().len() == 0 ==> layout.runs@.len() == 0 && layout.width.0 == 0,
{
    let shaped = shape_runs(faces, text, runs);
    let layout = assemble_line(faces, text.as_bytes().len(), font_size, runs, &shaped);
    proof {
        let outputs = outputs_view(shaped@);
        assert(is_engine_outcome(text.spec_bytes(), runs@, outputs));
        lemma_line_extent_in_range(faces@, font_size, runs@, runs@.len() as int);
        if text.spec_bytes().len() == 0 {
            assert forall|i: int| 0 <= i < runs@.len() implies (#[trigger] outputs[i]).len() == 0 by {
                lemma_run_start_monotonic(runs@, 0, i);
            }
            lemma_unshaped_runs_leave_nothing(
                faces@,
                font_size,
                runs@,
                outputs,
                runs@.len() as int,
            );
            assert(layout@.runs.len() == 0);
        }
    }
    layout
}

} // verus!
