//! The data model: font queries, loaded faces and what is known of each.
//!
//! A face is held as plain values: the bytes of its font file, its design
//! metrics, its style, its character map and a table of per-glyph metrics.
//! All metric values are whole font design units.

use crate::geometry::Bounds;
use crate::geometry::Size;
use vstd::prelude::*;
use vstd::string::StringExecFns;

verus! {

/// The stable identifier of a loaded face.
#[derive(Clone, Copy, Debug, PartialEq, Eq, Hash, Structural)]
pub struct FontId(pub usize);

/// An engine-specific glyph number; not a Unicode code point.
#[derive(Clone, Copy, Debug, PartialEq, Eq, Hash, Structural)]
pub struct GlyphId(pub u32);

/// The slant category of a face.
#[derive(Clone, Copy, Debug, PartialEq, Eq, Structural)]
pub enum FontStyle {
    Normal,
    Italic,
    Oblique,
}

/// A numeric weight on the usual scale: 400 is regular, 700 is bold.
#[derive(Clone, Copy, Debug, PartialEq, Eq, Structural)]
pub struct FontWeight(pub u32);

/// A width class in thousandths of the normal width: 1000 is normal.
#[derive(Clone, Copy, Debug, PartialEq, Eq, Structural)]
pub struct FontStretch(pub u32);

/// The style triple by which faces are matched.
#[derive(Clone, Copy, Debug, PartialEq, Eq, Structural)]
pub struct Properties {
    pub style: FontStyle,
    pub weight: FontWeight,
    pub stretch: FontStretch,
}

/// One OpenType feature setting: the tag, its value, and the cluster from
/// which it applies to the end of the text.
#[derive(Clone, Copy, Debug, PartialEq, Eq)]
pub struct FeatureSetting {
    pub tag: [u8; 4],
    pub value: u32,
    pub start: usize,
}

/// The feature set asked for with a font.
#[derive(Clone, Debug, PartialEq, Eq)]
pub struct FontFeatures {
    pub settings: Vec<FeatureSetting>,
}

/// A request for a font: the family and the style wanted within it.
#[derive(Clone, Debug, PartialEq, Eq)]
pub struct Font {
    pub family: String,
    pub features: FontFeatures,
    pub weight: FontWeight,
    pub style: FontStyle,
    pub stretch: FontStretch,
}

/// The design metrics of a face, in font design units.
#[derive(Clone, Copy, Debug, PartialEq, Eq)]
pub struct FontMetrics {
    pub units_per_em: u32,
    pub ascent: i32,
    pub descent: i32,
    pub line_gap: i32,
    pub underline_position: i32,
    pub underline_thickness: i32,
    pub cap_height: i32,
    pub x_height: i32,
    pub bounding_box: Bounds<i32>,
}

/// What is known of one glyph of a face. A field is `None` where the face
/// could not resolve it.
#[derive(Clone, Copy, Debug, PartialEq, Eq)]
pub struct GlyphMetrics {
    pub advance: Option<Size<i32>>,
    pub bounds: Option<Bounds<i32>>,
}

/// One entry of a face's character map.
#[derive(Clone, Copy, Debug, PartialEq, Eq)]
pub struct CharGlyph {
    pub ch: char,
    pub glyph: GlyphId,
}

/// A loaded face.
#[derive(Clone, Debug, PartialEq, Eq)]
pub struct Face {
    /// The family the face belongs to.
    pub family_name: String,
    /// The PostScript name, where the face records one.
    pub postscript_name: Option<String>,
    /// The full name, by which the face is spoken of to people.
    pub full_name: String,
    /// The bytes of the font file that holds the outlines.
    pub data: Vec<u8>,
    /// The index of the face within that file.
    pub index: u32,
    pub properties: Properties,
    pub metrics: FontMetrics,
    /// The character map; the first entry for a character counts.
    pub char_map: Vec<CharGlyph>,
    /// Per-glyph metrics, indexed by glyph number.
    pub glyphs: Vec<GlyphMetrics>,
}

/// A contiguous slice of a text, by its length in bytes, and the face to set it in.
#[derive(Clone, Copy, Debug, PartialEq, Eq)]
pub struct FontRun {
    pub len: usize,
    pub font_id: FontId,
}

/// Why an operation of the text system failed.
#[derive(Clone, Copy, Debug, PartialEq, Eq, Structural)]
pub enum FontError {
    /// Font bytes that are not a usable font.
    LoadError,
    /// The family has no face to select from.
    NoMatch,
    /// The face does not resolve the glyph.
    GlyphNotFound,
    /// A glyph was to be painted into a box without area.
    EmptyBounds,
}

/// Why a face fails the validity filter.
#[derive(Clone, Copy, Debug, PartialEq, Eq, Structural)]
pub enum Rejection {
    /// Its metrics break the unit convention.
    BrokenMetrics,
    /// It has no glyph for the lowercase `m` and is not the emoji exception.
    NoLatinCoverage,
}

/// The family name that stands for the system's user-interface font.
pub open spec fn system_ui_family() -> Seq<char> {
    ".SystemUIFont"@
}

/// The generic family that the user-interface font resolves to.
pub open spec fn system_ui_alias() -> Seq<char> {
    "sans-serif"@
}

/// The PostScript name of the one face that is kept without Latin coverage.
pub open spec fn emoji_face_name() -> Seq<char> {
    "NotoColorEmoji"@
}

/// The family under which a requested family is looked up.
pub open spec fn family_alias(family: Seq<char>) -> Seq<char> {
    if family == system_ui_family() {
        system_ui_alias()
    } else {
        family
    }
}

/// The glyph of the first entry for `ch` at or after `from`.
pub open spec fn char_map_lookup(map: Seq<CharGlyph>, ch: char, from: int) -> Option<GlyphId>
    decreases map.len() - from,
{
    if from < 0 || from >= map.len() {
        None
    } else if map[from].ch == ch {
        Some(map[from].glyph)
    } else {
        char_map_lookup(map, ch, from + 1)
    }
}

impl FontMetrics {
    /// The unit convention: the em is not empty, the ascent is measured
    /// upwards and the descent downwards.
    pub open spec fn wf(&self) -> bool {
        &&& self.units_per_em > 0
        &&& self.ascent >= 0
        &&& self.descent <= 0
    }

    /// Whether the metrics keep the unit convention.
    pub fn is_valid(&self) -> (valid: bool)
        ensures
            valid == self.wf(),
    {
        self.units_per_em > 0 && self.ascent >= 0 && self.descent <= 0
    }
}

impl Face {
    /// A face is well formed when its metrics keep the unit convention.
    pub open spec fn wf(&self) -> bool {
        self.metrics.wf()
    }

    /// The glyph that the face maps `ch` to.
    pub open spec fn glyph_of(&self, ch: char) -> Option<GlyphId> {
        char_map_lookup(self.char_map@, ch, 0)
    }

    /// The advance of a glyph, where the face resolves it.
    pub open spec fn advance_of(&self, glyph: GlyphId) -> Option<Size<i32>> {
        if (glyph.0 as int) < self.glyphs@.len() {
            self.glyphs@[glyph.0 as int].advance
        } else {
            None
        }
    }

    /// The typographic box of a glyph, where the face resolves it.
    pub open spec fn bounds_of(&self, glyph: GlyphId) -> Option<Bounds<i32>> {
        if (glyph.0 as int) < self.glyphs@.len() {
            self.glyphs@[glyph.0 as int].bounds
        } else {
            None
        }
    }

    /// Whether this is the emoji face that is kept without Latin coverage.
    pub open spec fn is_emoji_exception(&self) -> bool {
        match self.postscript_name {
            Some(name) => name@ == emoji_face_name(),
            None => false,
        }
    }

    /// The validity filter: a face can be used when it is well formed and has
    /// a glyph for the lowercase `m`, or is the emoji exception.
    pub open spec fn usable(&self) -> bool {
        &&& self.wf()
        &&& (self.glyph_of('m').is_some() || self.is_emoji_exception())
    }

    /// Why the face fails the validity filter, if it does.
    pub open spec fn rejection(&self) -> Option<Rejection> {
        if !self.wf() {
            Some(Rejection::BrokenMetrics)
        } else if !(self.glyph_of('m').is_some() || self.is_emoji_exception()) {
            Some(Rejection::NoLatinCoverage)
        } else {
            None
        }
    }

    /// Looks up the glyph for a character.
    pub fn glyph_for_char(&self, ch: char) -> (glyph: Option<GlyphId>)
        ensures
            glyph == self.glyph_of(ch),
    {
        let mut i: usize = 0;
        while i < self.char_map.len()
            invariant
                i <= self.char_map@.len(),
                self.glyph_of(ch) == char_map_lookup(self.char_map@, ch, i as int),
            decreases self.char_map@.len() - i,
        {
            if self.char_map[i].ch == ch {
                return Some(self.char_map[i].glyph);
            }
            i = i + 1;
        }
        None
    }

    /// The advance of a glyph in design units.
    pub fn advance(&self, glyph: GlyphId) -> (advance: Option<Size<i32>>)
        ensures
            advance == self.advance_of(glyph),
    {
        let at: usize = glyph.0 as usize;
        if at < self.glyphs.len() {
            self.glyphs[at].advance
        } else {
            None
        }
    }

    /// The typographic box of a glyph in design units.
    pub fn typographic_bounds(&self, glyph: GlyphId) -> (bounds: Option<Bounds<i32>>)
        ensures
            bounds == self.bounds_of(glyph),
    {
        let at: usize = glyph.0 as usize;
        if at < self.glyphs.len() {
            self.glyphs[at].bounds
        } else {
            None
        }
    }

    /// Whether this is the emoji face that is kept without Latin coverage.
    pub fn has_emoji_name(&self) -> (is_emoji: bool)
        ensures
            is_emoji == self.is_emoji_exception(),
    {
        match &self.postscript_name {
            Some(name) => {
                let emoji = String::from_str("NotoColorEmoji");
                *name == emoji
            },
            None => false,
        }
    }

    /// Applies the validity filter and says why a face fails it.
    pub fn rejection_reason(&self) -> (reason: Option<Rejection>)
        ensures
            reason == self.rejection(),
            reason.is_none() == self.usable(),
    {
        if !self.metrics.is_valid() {
            Some(Rejection::BrokenMetrics)
        } else if !(self.glyph_for_char('m').is_some() || self.has_emoji_name()) {
            Some(Rejection::NoLatinCoverage)
        } else {
            None
        }
    }

    /// Applies the validity filter.
    pub fn is_usable(&self) -> (usable: bool)
        ensures
            usable == self.usable(),
    {
        if !self.metrics.is_valid() {
            return false;
        }
        self.glyph_for_char('m').is_some() || self.has_emoji_name()
    }
}

/// The style triple that a font request asks for.
pub fn font_into_properties(font: &Font) -> (properties: Properties)
    ensures
        properties.style == font.style,
        properties.weight == font.weight,
        properties.stretch == font.stretch,
{
    Properties {
        style: match font.style {
            FontStyle::Normal => FontStyle::Normal,
            FontStyle::Italic => FontStyle::Italic,
            FontStyle::Oblique => FontStyle::Oblique,
        },
        weight: FontWeight(font.weight.0),
        stretch: FontStretch(font.stretch.0),
    }
}

/// The family name under which `family` is looked up: the name that stands
/// for the system's user-interface font becomes the generic sans-serif family.
pub fn normalized_family(family: &String) -> (name: String)
    ensures
        name@ == family_alias(family@),
{
    let system_ui = String::from_str(".SystemUIFont");
    if *family == system_ui {
        String::from_str("sans-serif")
    } else {
        family.clone()
    }
}

impl FontError {
    /// A short description of the failure.
    pub fn message(&self) -> (text: String)
        ensures
            text@ == match *self {
                FontError::LoadError => "font data could not be loaded"@,
                FontError::NoMatch => "requested font family contains no font matching the other parameters"@,
                FontError::GlyphNotFound => "glyph not found in face"@,
                FontError::EmptyBounds => "glyph bounds are empty"@,
            },
    {
        match self {
            FontError::LoadError => String::from_str("font data could not be loaded"),
            FontError::NoMatch => String::from_str(
                "requested font family contains no font matching the other parameters",
            ),
            FontError::GlyphNotFound => String::from_str("glyph not found in face"),
            FontError::EmptyBounds => String::from_str("glyph bounds are empty"),
        }
    }
}

} // verus!
