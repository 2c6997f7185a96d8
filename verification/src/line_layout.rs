//! The result of shaping one line: positioned glyphs, grouped by run.

use crate::font::FontId;
use crate::font::GlyphId;
use crate::geometry::Pixels;
use crate::geometry::Point;
use smallvec::SmallVec;
use vstd::prelude::*;

verus! {

/// One positioned glyph.
#[derive(Clone, Copy, Debug, PartialEq, Eq)]
pub struct ShapedGlyph {
    pub id: GlyphId,
    /// The pen position at which the glyph is drawn; `y` is the baseline.
    pub position: Point<Pixels>,
    /// The byte offset, within the run's text, that the glyph is attributed to.
    pub index: usize,
    pub is_emoji: bool,
}

/// The most glyphs that room is reserved for ahead of time.
pub const MAX_RESERVED_GLYPHS: usize = 0x10_0000;

/// The glyphs of one run, kept inline while they are few.
#[verifier::external_body]
#[derive(Debug, PartialEq, Eq)]
pub struct GlyphList {
    items: SmallVec<[ShapedGlyph; 8]>,
}

/// The glyphs that a list holds, first to last.
pub uninterp spec fn glyph_list_items(list: GlyphList) -> Seq<ShapedGlyph>;

impl View for GlyphList {
    type V = Seq<ShapedGlyph>;

    open spec fn view(&self) -> Seq<ShapedGlyph> {
        glyph_list_items(*self)
    }
}

impl GlyphList {
    /// `SmallVec::with_capacity`: an empty list with room for `capacity`
    /// glyphs. The capacity is not part of what the list holds. It is kept
    /// small enough for its size in bytes to fit any machine's address space.
    #[verifier::external_body]
    pub(crate) fn with_capacity(capacity: usize) -> (list: GlyphList)
        requires
            capacity <= MAX_RESERVED_GLYPHS,
        ensures
            glyph_list_items(list) == Seq::<ShapedGlyph>::empty(),
    {
        GlyphList { items: SmallVec::with_capacity(capacity) }
    }

    /// `SmallVec::push`: appends one glyph after those already held. As with
    /// `Vec::push`, running out of memory is outside the contract.
    #[verifier::external_body]
    pub(crate) fn push(&mut self, glyph: ShapedGlyph)
        ensures
            glyph_list_items(*final(self)) == glyph_list_items(*old(self)).push(glyph),
    {
        self.items.push(glyph)
    }

    /// `SmallVec::as_slice`: the glyphs held, in order, as a slice.
    #[verifier::external_body]
    pub(crate) fn as_slice(&self) -> (glyphs: &[ShapedGlyph])
        ensures
            glyphs@ == glyph_list_items(*self),
    {
        self.items.as_slice()
    }

    /// The number of glyphs.
    pub fn len(&self) -> (n: usize)
        ensures
            n == self@.len(),
    {
        self.as_slice().len()
    }

    /// The glyph at `at`, if there is one.
    pub fn get(&self, at: usize) -> (glyph: Option<ShapedGlyph>)
        ensures
            glyph == if at < self@.len() {
                Some(self@[at as int])
            } else {
                None::<ShapedGlyph>
            },
    {
        let glyphs = self.as_slice();
        if at < glyphs.len() {
            Some(glyphs[at])
        } else {
            None
        }
    }
}

/// The glyphs of one run of the line, all of one face.
#[derive(Debug, PartialEq, Eq)]
pub struct ShapedRun {
    pub font_id: FontId,
    pub glyphs: GlyphList,
}

/// A shaped run as a value: the face and the glyphs in order.
pub struct ShapedRunView {
    pub font_id: FontId,
    pub glyphs: Seq<ShapedGlyph>,
}

impl View for ShapedRun {
    type V = ShapedRunView;

    open spec fn view(&self) -> ShapedRunView {
        ShapedRunView { font_id: self.font_id, glyphs: self.glyphs@ }
    }
}

/// The runs of a line as values.
pub open spec fn shaped_runs_view(runs: Seq<ShapedRun>) -> Seq<ShapedRunView> {
    Seq::new(runs.len(), |i: int| runs[i]@)
}

/// One shaped line.
#[derive(Debug, PartialEq, Eq)]
pub struct LineLayout {
    pub font_size: Pixels,
    /// The total advance of the line.
    pub width: Pixels,
    pub ascent: Pixels,
    pub descent: Pixels,
    pub runs: Vec<ShapedRun>,
    /// The length of the text in bytes.
    pub len: usize,
}

/// A shaped line as a value.
pub struct LineLayoutView {
    pub font_size: Pixels,
    pub width: Pixels,
    pub ascent: Pixels,
    pub descent: Pixels,
    pub runs: Seq<ShapedRunView>,
    pub len: usize,
}

impl View for LineLayout {
    type V = LineLayoutView;

    open spec fn view(&self) -> LineLayoutView {
        LineLayoutView {
            font_size: self.font_size,
            width: self.width,
            ascent: self.ascent,
            descent: self.descent,
            runs: shaped_runs_view(self.runs@),
            len: self.len,
        }
    }
}

} // verus!
