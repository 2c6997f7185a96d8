use text_system::font::CharGlyph;
use text_system::font::Face;
use text_system::font::FontId;
use text_system::font::FontMetrics;
use text_system::font::FontRun;
use text_system::font::FontStretch;
use text_system::font::FontStyle;
use text_system::font::FontWeight;
use text_system::font::GlyphId;
use text_system::font::GlyphMetrics;
use text_system::font::Properties;
use text_system::geometry::Bounds;
use text_system::geometry::Pixels;
use text_system::geometry::Point;
use text_system::geometry::Size;
use text_system::line_layout::ShapedGlyph;
use text_system::shaping::assemble_line;
use text_system::shaping::default_features;
use text_system::shaping::layout_line;
use text_system::shaping::layout_run;
use text_system::shaping::shape_runs;
use text_system::shaping::slice_text;
use text_system::shaping::split_runs;
use text_system::shaping::EngineGlyph;
use text_system::shaping::MAX_SLICE_LEN;

/// A face of `units_per_em` units to the em whose glyph `g` advances by `100 * g` units.
fn face(units_per_em: u32, ascent: i32, descent: i32) -> Face {
    Face {
        family_name: "Test".to_string(),
        postscript_name: None,
        full_name: "Test Regular".to_string(),
        data: vec![],
        index: 0,
        properties: Properties {
            style: FontStyle::Normal,
            weight: FontWeight(400),
            stretch: FontStretch(1000),
        },
        metrics: FontMetrics {
            units_per_em,
            ascent,
            descent,
            line_gap: 0,
            underline_position: 0,
            underline_thickness: 0,
            cap_height: 0,
            x_height: 0,
            bounding_box: Bounds { origin: Point { x: 0, y: 0 }, size: Size { width: 0, height: 0 } },
        },
        char_map: vec![CharGlyph { ch: 'm', glyph: GlyphId(1) }],
        glyphs: (0..8)
            .map(|g| GlyphMetrics {
                advance: if g == 7 { None } else { Some(Size { width: 100 * g, height: 0 }) },
                bounds: None,
            })
            .collect(),
    }
}

fn engine(glyph_id: u32, cluster: u32, x_advance: i32) -> EngineGlyph {
    EngineGlyph { glyph_id, cluster, x_advance }
}

fn glyph(id: u32, x: i64, index: usize) -> ShapedGlyph {
    ShapedGlyph {
        id: GlyphId(id),
        position: Point { x: Pixels(x), y: Pixels(0) },
        index,
        is_emoji: false,
    }
}

fn run(len: usize, font_id: usize) -> FontRun {
    FontRun { len, font_id: FontId(font_id) }
}

const SIZE: Pixels = Pixels(10 * 64);

#[test]
fn glyphs_are_placed_by_the_advances_of_the_face() {
    // At 10 px in a 1000-unit em one unit is 0.64 sixty-fourths.
    let face = face(1000, 800, -200);
    let reported = vec![engine(3, 0, 9999), engine(5, 1, 9999), engine(1, 2, 9999)];
    let (glyphs, pen) = layout_run(&face, SIZE, Pixels(7), &reported);
    assert_eq!(glyphs.len(), 3);
    assert_eq!(glyphs.get(0), Some(glyph(3, 7, 0)));
    assert_eq!(glyphs.get(1), Some(glyph(5, 7 + 192, 1)));
    assert_eq!(glyphs.get(2), Some(glyph(1, 7 + 192 + 320, 2)));
    assert_eq!(glyphs.get(3), None);
    assert_eq!(pen, Pixels(7 + 192 + 320 + 64));
}

#[test]
fn a_missing_glyph_moves_the_pen_and_is_not_drawn() {
    let face = face(1000, 800, -200);
    let reported = vec![engine(0, 0, 640), engine(2, 1, 5), engine(0, 2, -40)];
    let (glyphs, pen) = layout_run(&face, SIZE, Pixels(0), &reported);
    assert_eq!(glyphs.len(), 1);
    assert_eq!(glyphs.get(0), Some(glyph(2, 640, 1)));
    assert_eq!(pen, Pixels(640 + 128 - 40));
}

#[test]
fn a_glyph_without_an_advance_is_treated_as_missing() {
    let face = face(1000, 800, -200);
    let reported = vec![engine(7, 0, 100), engine(900, 1, 200), engine(1, 2, 300)];
    let (glyphs, pen) = layout_run(&face, SIZE, Pixels(0), &reported);
    assert_eq!(glyphs.len(), 1);
    assert_eq!(glyphs.get(0), Some(glyph(1, 300, 2)));
    assert_eq!(pen, Pixels(364));
}

#[test]
fn the_pen_saturates() {
    let face = face(1000, 800, -200);
    let reported = vec![engine(0, 0, i32::MAX), engine(1, 1, 0)];
    let (glyphs, pen) = layout_run(&face, SIZE, Pixels(i64::MAX - 5), &reported);
    assert_eq!(glyphs.get(0), Some(glyph(1, i64::MAX, 1)));
    assert_eq!(pen, Pixels(i64::MAX));
}

#[test]
fn two_runs_of_two_faces_give_two_shaped_runs() {
    let faces = vec![face(1000, 800, -200), face(2000, 1900, -500)];
    let runs = [run(1, 0), run(1, 1)];
    let reported = vec![vec![engine(3, 0, 0)], vec![engine(4, 0, 0)]];
    let layout = assemble_line(&faces, 2, SIZE, &runs, &reported);
    assert_eq!(layout.len, 2);
    assert_eq!(layout.font_size, SIZE);
    assert_eq!(layout.runs.len(), 2);
    assert_eq!(layout.runs[0].font_id, FontId(0));
    assert_eq!(layout.runs[0].glyphs.len(), 1);
    assert_eq!(layout.runs[0].glyphs.get(0), Some(glyph(3, 0, 0)));
    assert_eq!(layout.runs[1].font_id, FontId(1));
    assert_eq!(layout.runs[1].glyphs.len(), 1);
    // The cluster counts from the start of the run, the position from the start of the line.
    assert_eq!(layout.runs[1].glyphs.get(0), Some(glyph(4, 192, 0)));
    // 400 units at 10 px in a 2000-unit em.
    assert_eq!(layout.width, Pixels(192 + 128));
    // The largest ascent and descent among the faces: 1900 / 2000 and 500 / 2000 of 640.
    assert_eq!(layout.ascent, Pixels(608));
    assert_eq!(layout.descent, Pixels(160));
}

#[test]
fn a_run_without_glyphs_leaves_no_shaped_run() {
    let faces = vec![face(1000, 800, -200), face(2000, 1900, -500)];
    let runs = [run(1, 0), run(0, 1), run(1, 0)];
    let reported = vec![vec![engine(0, 0, 64)], vec![], vec![engine(2, 0, 0)]];
    let layout = assemble_line(&faces, 2, SIZE, &runs, &reported);
    // All glyphs of the first run are missing: the run is there, and empty.
    assert_eq!(layout.runs.len(), 2);
    assert_eq!(layout.runs[0].font_id, FontId(0));
    assert_eq!(layout.runs[0].glyphs.len(), 0);
    assert_eq!(layout.runs[1].font_id, FontId(0));
    assert_eq!(layout.runs[1].glyphs.get(0), Some(glyph(2, 64, 0)));
    assert_eq!(layout.width, Pixels(64 + 128));
    // The face of the run without glyphs still counts for the height of the line.
    assert_eq!(layout.ascent, Pixels(608));
    assert_eq!(layout.descent, Pixels(160));
}

#[test]
fn a_line_without_runs_is_empty() {
    let faces = vec![face(1000, 800, -200)];
    let layout = assemble_line(&faces, 5, SIZE, &[], &vec![]);
    assert_eq!(layout.len, 5);
    assert_eq!(layout.runs.len(), 0);
    assert_eq!(layout.width, Pixels(0));
    assert_eq!(layout.ascent, Pixels(0));
    assert_eq!(layout.descent, Pixels(0));
}

#[test]
fn an_empty_text_gives_an_empty_layout() {
    let faces = vec![face(1000, 800, -200)];
    let layout = layout_line(&faces, "", SIZE, &[run(0, 0)]);
    assert_eq!(layout.len, 0);
    assert_eq!(layout.runs.len(), 0);
    assert_eq!(layout.width, Pixels(0));
    assert_eq!(layout.ascent, Pixels(512));
    assert_eq!(layout.descent, Pixels(128));
    let overlong = layout_line(&faces, "", SIZE, &[run(3, 0), run(usize::MAX, 0), run(1, 0)]);
    assert_eq!(overlong.len, 0);
    assert_eq!(overlong.runs.len(), 0);
    assert_eq!(overlong.width, Pixels(0));
}

#[test]
fn runs_outside_the_text_are_not_shaped() {
    let faces = vec![face(1000, 800, -200)];
    // "é" takes two bytes: the first run ends within it, the second starts within it,
    // the third lies behind the text, and the last is empty.
    let shaped = shape_runs(&faces, "é", &[run(1, 0), run(1, 0), run(4, 0), run(0, 0)]);
    assert_eq!(shaped, vec![vec![], vec![], vec![], vec![]]);
    let layout = layout_line(&faces, "é", SIZE, &[run(1, 0), run(1, 0)]);
    assert_eq!(layout.len, 2);
    assert_eq!(layout.runs.len(), 0);
    assert_eq!(layout.width, Pixels(0));
}

#[test]
fn slices_follow_one_another_through_the_text() {
    let text = "aé→z";
    assert_eq!(text.len(), 7);
    let lengths = [1usize, 2, 3, 1];
    let mut start = 0;
    let mut rebuilt = String::new();
    for len in lengths {
        let slice = slice_text(text, start, len).unwrap();
        assert_eq!(slice.len(), len);
        rebuilt.push_str(slice);
        start += len;
    }
    assert_eq!(start, text.len());
    assert_eq!(rebuilt, text);
}

#[test]
fn a_slice_is_cut_between_characters_within_the_text() {
    let text = "aé→z";
    assert_eq!(slice_text(text, 0, 0), Some(""));
    assert_eq!(slice_text(text, 0, 7), Some("aé→z"));
    assert_eq!(slice_text(text, 1, 2), Some("é"));
    assert_eq!(slice_text(text, 3, 4), Some("→z"));
    assert_eq!(slice_text(text, 7, 0), Some(""));
    assert_eq!(slice_text(text, 1, 1), None);
    assert_eq!(slice_text(text, 2, 1), None);
    assert_eq!(slice_text(text, 4, 3), None);
    assert_eq!(slice_text(text, 0, 8), None);
    assert_eq!(slice_text(text, 8, 0), None);
    assert_eq!(slice_text(text, 1, usize::MAX), None);
    assert_eq!(slice_text(text, usize::MAX, usize::MAX), None);
    assert_eq!(slice_text("", 0, 0), Some(""));
}

#[test]
fn kerning_and_ligatures_are_switched_on() {
    let features = default_features();
    assert_eq!(features.len(), 3);
    assert_eq!(&features[0].tag, b"kern");
    assert_eq!(&features[1].tag, b"liga");
    assert_eq!(&features[2].tag, b"clig");
    for feature in features {
        assert_eq!(feature.value, 1);
        assert_eq!(feature.start, 0);
    }
}

#[test]
fn runs_are_cut_out_of_the_text_one_after_the_other() {
    let text = "aé→z";
    let slices = split_runs(text, &[run(1, 0), run(2, 0), run(3, 0), run(1, 0)]);
    assert_eq!(slices, vec![Some("a"), Some("é"), Some("→"), Some("z")]);
    assert_eq!(slices.iter().map(|slice| slice.unwrap()).collect::<String>(), text);
    // A run that is cut within a character has no slice; the next one starts where it ends.
    let cut = split_runs(text, &[run(2, 0), run(1, 0), run(0, 0), run(4, 0), run(1, 0)]);
    assert_eq!(cut, vec![None, None, Some(""), Some("→z"), None]);
    let overlong = split_runs(text, &[run(usize::MAX, 0), run(usize::MAX, 0), run(0, 0)]);
    assert_eq!(overlong, vec![None, None, None]);
    assert_eq!(split_runs(text, &[]), Vec::<Option<&str>>::new());
}

#[test]
fn a_run_longer_than_the_engine_takes_is_not_shaped() {
    assert_eq!(MAX_SLICE_LEN, (i32::MAX / 8) as usize);
    let faces = vec![face(1000, 800, -200)];
    let text = "a".repeat(MAX_SLICE_LEN + 1);
    let shaped = shape_runs(&faces, &text, &[run(MAX_SLICE_LEN + 1, 0)]);
    assert_eq!(shaped, vec![vec![]]);
    let layout = layout_line(&faces, &text, SIZE, &[run(MAX_SLICE_LEN + 1, 0)]);
    assert_eq!(layout.len, MAX_SLICE_LEN + 1);
    assert_eq!(layout.runs.len(), 0);
    assert_eq!(layout.width, Pixels(0));
}
