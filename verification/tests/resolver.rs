use text_system::font::CharGlyph;
use text_system::font::Face;
use text_system::font::Font;
use text_system::font::FontError;
use text_system::font::FontFeatures;
use text_system::font::FontId;
use text_system::font::FontMetrics;
use text_system::font::FontStretch;
use text_system::font::FontStyle;
use text_system::font::FontWeight;
use text_system::font::GlyphId;
use text_system::font::GlyphMetrics;
use text_system::font::Properties;
use text_system::font::font_into_properties;
use text_system::font::normalized_family;
use text_system::geometry::Bounds;
use text_system::geometry::Point;
use text_system::geometry::Size;
use text_system::font::Rejection;
use text_system::text_system::LinuxTextSystemState;
use text_system::text_system::RejectedFace;

fn rejected(full_name: &str, reason: Rejection) -> RejectedFace {
    RejectedFace { full_name: full_name.to_string(), reason }
}

fn metrics(units_per_em: u32, ascent: i32, descent: i32) -> FontMetrics {
    FontMetrics {
        units_per_em,
        ascent,
        descent,
        line_gap: 90,
        underline_position: -130,
        underline_thickness: 90,
        cap_height: 1493,
        x_height: 1120,
        bounding_box: Bounds {
            origin: Point { x: -2090, y: -948 },
            size: Size { width: 5763, height: 3420 },
        },
    }
}

fn face(family: &str, postscript: &str, weight: u32, has_m: bool) -> Face {
    let mut char_map = vec![CharGlyph { ch: 'A', glyph: GlyphId(36) }];
    if has_m {
        char_map.push(CharGlyph { ch: 'm', glyph: GlyphId(80) });
    }
    Face {
        family_name: family.to_string(),
        postscript_name: Some(postscript.to_string()),
        full_name: postscript.replace('-', " "),
        data: vec![0, 1, 0, 0],
        index: 0,
        properties: Properties {
            style: FontStyle::Normal,
            weight: FontWeight(weight),
            stretch: FontStretch(1000),
        },
        metrics: metrics(2048, 1901, -483),
        char_map,
        glyphs: vec![
            GlyphMetrics { advance: Some(Size { width: 1229, height: 0 }), bounds: None },
            GlyphMetrics {
                advance: Some(Size { width: 1401, height: 0 }),
                bounds: Some(Bounds {
                    origin: Point { x: 16, y: 0 },
                    size: Size { width: 1369, height: 1493 },
                }),
            },
            GlyphMetrics { advance: None, bounds: None },
        ],
    }
}

fn request(family: &str, weight: u32) -> Font {
    Font {
        family: family.to_string(),
        features: FontFeatures { settings: vec![] },
        weight: FontWeight(weight),
        style: FontStyle::Normal,
        stretch: FontStretch(1000),
    }
}

fn sans_serif() -> LinuxTextSystemState {
    let mut state = LinuxTextSystemState::new();
    let installed =
        vec![face("sans-serif", "Sans-Regular", 400, true), face("sans-serif", "Sans-Bold", 700, true)];
    assert_eq!(state.font_id(&request("sans-serif", 400), installed), Ok(FontId(0)));
    state
}

#[test]
fn bold_face_is_selected_for_weight_700() {
    let mut state = sans_serif();
    assert_eq!(state.font_id(&request("sans-serif", 700), vec![]), Ok(FontId(1)));
    assert_eq!(state.face(FontId(1)).postscript_name, Some("Sans-Bold".to_string()));
}

#[test]
fn equal_weight_distance_selects_the_first_registered_face() {
    let mut state = sans_serif();
    assert_eq!(state.font_id(&request("sans-serif", 550), vec![]), Ok(FontId(0)));
    assert_eq!(state.font_id(&request("sans-serif", 551), vec![]), Ok(FontId(1)));
    assert_eq!(state.font_id(&request("sans-serif", 549), vec![]), Ok(FontId(0)));
}

#[test]
fn resolving_twice_gives_the_same_face() {
    let mut state = LinuxTextSystemState::new();
    let font = request("Serif", 700);
    let installed = vec![face("Serif", "Serif-Regular", 400, true), face("Serif", "Serif-Bold", 700, true)];
    let first = state.font_id(&font, installed);
    assert_eq!(first, Ok(FontId(1)));
    // What is found installed later does not matter for a cached family.
    let second = state.font_id(&font, vec![face("Serif", "Serif-Black", 900, true)]);
    assert_eq!(second, first);
    assert_eq!(state.font_id(&font, vec![]), first);
    assert!(!state.is_registered(FontId(2)));
    assert_eq!(state.family_font_ids(&"Serif".to_string()).unwrap().len(), 2);
}

#[test]
fn identifiers_stay_valid_when_other_families_are_loaded() {
    let mut state = sans_serif();
    let before = state.face(FontId(1)).clone();
    assert_eq!(
        state.font_id(&request("Mono", 400), vec![face("Mono", "Mono-Regular", 400, true)]),
        Ok(FontId(2))
    );
    assert_eq!(state.face(FontId(1)), &before);
    assert_eq!(state.font_id(&request("sans-serif", 700), vec![]), Ok(FontId(1)));
    let ids = state.family_font_ids(&"Mono".to_string()).unwrap();
    assert_eq!(ids.len(), 1);
    assert_eq!(ids.get(0), Some(FontId(2)));
    assert_eq!(ids.get(1), None);
}

#[test]
fn a_face_without_latin_coverage_is_never_resolved() {
    let mut state = LinuxTextSystemState::new();
    let font = request("TestFont", 400);
    assert!(state.needs_system_faces(&font.family));
    assert_eq!(
        state.font_id(&font, vec![face("TestFont", "TestFont", 400, false)]),
        Err(FontError::NoMatch)
    );
    assert!(!state.is_registered(FontId(0)));
    // The empty list is cached: the family is not looked up again.
    assert!(!state.needs_system_faces(&font.family));
    assert_eq!(state.family_font_ids(&font.family).unwrap().len(), 0);
    assert_eq!(
        state.font_id(&font, vec![face("TestFont", "TestFont", 400, true)]),
        Err(FontError::NoMatch)
    );
}

#[test]
fn rejected_faces_get_no_identifier() {
    let mut state = LinuxTextSystemState::new();
    let installed = vec![
        face("Mixed", "Mixed-Symbols", 400, false),
        face("Mixed", "Mixed-Regular", 400, true),
        face("Mixed", "Mixed-Dingbats", 700, false),
        face("Mixed", "Mixed-Bold", 700, true),
    ];
    assert_eq!(state.font_id(&request("Mixed", 700), installed), Ok(FontId(1)));
    assert_eq!(state.face(FontId(0)).postscript_name, Some("Mixed-Regular".to_string()));
    assert_eq!(state.face(FontId(1)).postscript_name, Some("Mixed-Bold".to_string()));
    assert!(!state.is_registered(FontId(2)));
}

#[test]
fn rejected_faces_are_reported_with_the_reason() {
    let mut state = LinuxTextSystemState::new();
    let mut broken = face("Mixed", "Mixed-Broken", 400, false);
    broken.metrics = metrics(2048, -1, -483);
    let installed = vec![
        face("Mixed", "Mixed-Symbols", 400, false),
        face("Mixed", "Mixed-Regular", 400, true),
        broken,
    ];
    let family = "Mixed".to_string();
    assert_eq!(
        state.rejected_faces(&family, &installed),
        vec![
            rejected("Mixed Symbols", Rejection::NoLatinCoverage),
            rejected("Mixed Broken", Rejection::BrokenMetrics),
        ]
    );
    assert_eq!(state.rejected_faces(&family, &vec![]), Vec::<RejectedFace>::new());
    assert_eq!(installed[0].rejection_reason(), Some(Rejection::NoLatinCoverage));
    assert_eq!(installed[1].rejection_reason(), None);
    assert_eq!(installed[2].rejection_reason(), Some(Rejection::BrokenMetrics));
    // Faces from memory come first: the installed ones are not looked at.
    let embedded =
        vec![Some(face("Mixed", "Mixed-Embedded", 400, false)), Some(face("Else", "Else", 400, false))];
    assert_eq!(state.add_fonts(embedded), Ok(()));
    assert_eq!(
        state.rejected_faces(&family, &installed),
        vec![rejected("Mixed Embedded", Rejection::NoLatinCoverage)]
    );
    assert_eq!(
        state.rejected_faces(&"Else".to_string(), &installed),
        vec![rejected("Else", Rejection::NoLatinCoverage)]
    );
    assert_eq!(state.rejected_faces(&"None".to_string(), &installed).len(), 2);
    // Once the family is cached nothing is loaded for it, and nothing turned away.
    assert_eq!(state.font_id(&request("Mixed", 400), installed.clone()), Err(FontError::NoMatch));
    assert_eq!(state.family_font_ids(&family).unwrap().len(), 0);
    assert_eq!(state.rejected_faces(&family, &installed), Vec::<RejectedFace>::new());
}

#[test]
fn the_emoji_face_is_kept_without_latin_coverage() {
    let mut state = LinuxTextSystemState::new();
    let emoji = face("Noto Color Emoji", "NotoColorEmoji", 400, false);
    assert!(emoji.is_usable());
    assert!(emoji.has_emoji_name());
    assert_eq!(state.font_id(&request("Noto Color Emoji", 400), vec![emoji]), Ok(FontId(0)));
    let mut unnamed = face("Symbols", "Symbols", 400, false);
    unnamed.postscript_name = None;
    assert!(!unnamed.is_usable());
    assert!(!unnamed.has_emoji_name());
}

#[test]
fn a_face_with_broken_metrics_is_not_usable() {
    let mut broken = face("Broken", "Broken", 400, true);
    assert!(broken.is_usable());
    broken.metrics = metrics(0, 1901, -483);
    assert!(!broken.is_usable());
    broken.metrics = metrics(2048, -1, -483);
    assert!(!broken.is_usable());
    broken.metrics = metrics(2048, 1901, 1);
    assert!(!broken.is_usable());
    broken.metrics = metrics(1, 0, 0);
    assert!(broken.is_usable());
    assert!(metrics(1000, 800, -200).is_valid());
    assert!(!metrics(0, 800, -200).is_valid());
}

#[test]
fn the_system_ui_font_is_the_generic_sans_serif_family() {
    assert_eq!(normalized_family(&".SystemUIFont".to_string()), "sans-serif");
    assert_eq!(normalized_family(&"sans-serif".to_string()), "sans-serif");
    assert_eq!(normalized_family(&"Serif".to_string()), "Serif");
    assert_eq!(normalized_family(&"".to_string()), "");
    let mut state = sans_serif();
    assert!(!state.needs_system_faces(&".SystemUIFont".to_string()));
    assert_eq!(state.font_id(&request(".SystemUIFont", 700), vec![]), Ok(FontId(1)));
    assert_eq!(state.family_font_ids(&".SystemUIFont".to_string()).unwrap().len(), 2);
    assert!(state.family_font_ids(&"Serif".to_string()).is_none());
}

#[test]
fn fonts_from_memory_come_before_installed_ones() {
    let mut state = LinuxTextSystemState::new();
    let embedded = vec![
        Some(face("Embedded", "Embedded-Bold", 700, true)),
        Some(face("Other", "Other-Regular", 400, true)),
        Some(face("Embedded", "Embedded-Regular", 400, true)),
    ];
    assert_eq!(state.add_fonts(embedded), Ok(()));
    // Adding fonts gives out no identifier.
    assert!(!state.is_registered(FontId(0)));
    assert_eq!(state.memory_families(), vec!["Embedded".to_string(), "Other".to_string()]);
    assert!(!state.needs_system_faces(&"Embedded".to_string()));
    assert!(!state.needs_system_faces(&"Other".to_string()));
    assert!(state.needs_system_faces(&"Installed".to_string()));
    let installed = vec![face("Embedded", "Installed-Black", 900, true)];
    assert_eq!(state.font_id(&request("Embedded", 900), installed), Ok(FontId(0)));
    assert_eq!(state.face(FontId(0)).postscript_name, Some("Embedded-Bold".to_string()));
    assert_eq!(state.face(FontId(1)).postscript_name, Some("Embedded-Regular".to_string()));
    assert!(!state.is_registered(FontId(2)));
    assert_eq!(state.font_id(&request("Other", 400), vec![]), Ok(FontId(2)));
    // A family from memory stays listed when its faces have been loaded.
    assert_eq!(state.memory_families(), vec!["Embedded".to_string(), "Other".to_string()]);
    assert_eq!(state.add_fonts(vec![Some(face("Other", "Other-Bold", 700, true))]), Ok(()));
    assert_eq!(state.add_fonts(vec![Some(face("Third", "Third-Regular", 400, true))]), Ok(()));
    assert_eq!(
        state.memory_families(),
        vec!["Embedded".to_string(), "Other".to_string(), "Third".to_string()]
    );
}

#[test]
fn unparseable_font_data_is_a_load_error() {
    let mut state = LinuxTextSystemState::new();
    let fonts = vec![
        Some(face("First", "First", 400, true)),
        None,
        Some(face("Third", "Third", 400, true)),
    ];
    assert_eq!(state.add_fonts(fonts), Err(FontError::LoadError));
    // The fonts before the broken one are there, those after it are not.
    assert!(!state.needs_system_faces(&"First".to_string()));
    assert!(state.needs_system_faces(&"Third".to_string()));
    assert_eq!(state.memory_families(), vec!["First".to_string()]);
    assert_eq!(state.add_fonts(vec![None]), Err(FontError::LoadError));
    assert_eq!(state.add_fonts(vec![]), Ok(()));
}

#[test]
fn every_font_that_parses_is_added() {
    let mut state = LinuxTextSystemState::new();
    let mut broken = face("Broken", "Broken-Regular", 400, true);
    broken.metrics = metrics(2048, 1901, 483);
    let fonts = vec![
        Some(face("Symbols", "Symbols", 400, false)),
        Some(broken),
        Some(face("Last", "Last", 400, true)),
    ];
    assert_eq!(state.add_fonts(fonts), Ok(()));
    assert_eq!(
        state.memory_families(),
        vec!["Symbols".to_string(), "Broken".to_string(), "Last".to_string()]
    );
    assert!(!state.is_registered(FontId(0)));
    // Whether a face can be used is asked when its family is loaded.
    assert_eq!(state.font_id(&request("Broken", 400), vec![]), Err(FontError::NoMatch));
    assert_eq!(state.font_id(&request("Symbols", 400), vec![]), Err(FontError::NoMatch));
    assert!(!state.is_registered(FontId(0)));
    assert_eq!(state.font_id(&request("Last", 400), vec![]), Ok(FontId(0)));
}

#[test]
fn an_unknown_family_matches_nothing_and_is_not_cached() {
    let mut state = sans_serif();
    let family = "Nowhere".to_string();
    assert_eq!(state.font_id(&request("Nowhere", 400), vec![]), Err(FontError::NoMatch));
    assert!(state.family_font_ids(&family).is_none());
    assert!(state.needs_system_faces(&family));
    assert!(!state.is_registered(FontId(2)));
    assert_eq!(state.font_id(&request("Nowhere", 400), vec![]), Err(FontError::NoMatch));
    // The family resolves once its fonts are there.
    assert_eq!(state.add_fonts(vec![Some(face("Nowhere", "Nowhere", 400, true))]), Ok(()));
    assert!(!state.needs_system_faces(&family));
    assert_eq!(state.font_id(&request("Nowhere", 400), vec![]), Ok(FontId(2)));
    assert_eq!(state.family_font_ids(&family).unwrap().get(0), Some(FontId(2)));
}

#[test]
fn metrics_keep_the_unit_convention() {
    let state = sans_serif();
    for id in [FontId(0), FontId(1)] {
        let metrics = state.font_metrics(id);
        assert!(metrics.units_per_em > 0);
        assert!(metrics.ascent >= 0);
        assert!(metrics.descent <= 0);
    }
    assert_eq!(state.font_metrics(FontId(0)), metrics(2048, 1901, -483));
}

#[test]
fn advances_and_bounds_come_from_the_glyph_table() {
    let state = sans_serif();
    assert_eq!(state.advance(FontId(0), GlyphId(0)), Ok(Size { width: 1229, height: 0 }));
    assert_eq!(state.advance(FontId(0), GlyphId(1)), Ok(Size { width: 1401, height: 0 }));
    assert_eq!(state.advance(FontId(0), GlyphId(2)), Err(FontError::GlyphNotFound));
    assert_eq!(state.advance(FontId(0), GlyphId(3)), Err(FontError::GlyphNotFound));
    assert_eq!(state.advance(FontId(1), GlyphId(u32::MAX)), Err(FontError::GlyphNotFound));
    assert_eq!(
        state.typographic_bounds(FontId(0), GlyphId(1)),
        Ok(Bounds { origin: Point { x: 16, y: 0 }, size: Size { width: 1369, height: 1493 } })
    );
    assert_eq!(state.typographic_bounds(FontId(0), GlyphId(0)), Err(FontError::GlyphNotFound));
    assert_eq!(state.typographic_bounds(FontId(0), GlyphId(9)), Err(FontError::GlyphNotFound));
}

#[test]
fn the_first_entry_of_the_character_map_counts() {
    let state = sans_serif();
    assert_eq!(state.glyph_for_char(FontId(0), 'm'), Some(GlyphId(80)));
    assert_eq!(state.glyph_for_char(FontId(0), 'A'), Some(GlyphId(36)));
    assert_eq!(state.glyph_for_char(FontId(0), 'z'), None);
    let mut twice = face("Twice", "Twice", 400, true);
    twice.char_map.push(CharGlyph { ch: 'A', glyph: GlyphId(99) });
    assert_eq!(twice.glyph_for_char('A'), Some(GlyphId(36)));
}

#[test]
fn a_request_asks_for_its_own_style() {
    let mut font = request("Serif", 300);
    font.style = FontStyle::Oblique;
    font.stretch = FontStretch(1250);
    assert_eq!(
        font_into_properties(&font),
        Properties { style: FontStyle::Oblique, weight: FontWeight(300), stretch: FontStretch(1250) }
    );
}

#[test]
fn each_error_describes_itself() {
    assert_eq!(FontError::LoadError.message(), "font data could not be loaded");
    assert_eq!(
        FontError::NoMatch.message(),
        "requested font family contains no font matching the other parameters"
    );
    assert_eq!(FontError::GlyphNotFound.message(), "glyph not found in face");
    assert_eq!(FontError::EmptyBounds.message(), "glyph bounds are empty");
}
