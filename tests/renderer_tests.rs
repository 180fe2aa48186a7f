use nns_chart::{
    chord::{Chord, ChordQuality},
    line::RepeatSign,
    measure::Measure,
    error::ChartError,
    parser::ChordParser,
    renderer::{ChordRenderer, Glyph, NotationType, Primitive, SVG_HEIGHT, SVG_WIDTH},
};

const TRIAD_MAJOR: &str = "degree: 1\nquality: major\n";
const TRIAD_MINOR: &str = "degree: 1\nquality: minor\n";
const TRIAD_SUS2: &str = "degree: 1\nquality: sus2\n";
const TRIAD_AUG: &str = "degree: 1\nquality: aug\n";
const TRIAD_DIM: &str = "degree: 1\nquality: dim\n";

#[test]
fn test_render_single_chord() {
    let chord = ChordParser::parse_str(TRIAD_MAJOR).unwrap();

    let mut renderer = ChordRenderer::new();
    renderer.init_background().render_chord(&chord, 400, 200);

    // Check markup is not empty
    let content = renderer.to_svg();
    assert!(!content.is_empty());
    assert!(content.contains("<svg"));
    assert!(content.contains("</svg>"));
}

#[test]
fn test_render_multiple_chords() {
    let chord1 = ChordParser::parse_str(TRIAD_MAJOR).unwrap();
    let chord2 = ChordParser::parse_str(TRIAD_MINOR).unwrap();

    let mut renderer = ChordRenderer::new();
    renderer
        .init_background()
        .render_chord(&chord1, 200, 200)
        .render_chord(&chord2, 600, 200);

    let content = renderer.to_svg();
    assert!(content.contains("1")); // First chord degree
    assert!(content.contains("m")); // Minor quality
}

#[test]
fn test_render_all_qualities() {
    let test_files = [
        (TRIAD_MAJOR, "1"),
        (TRIAD_MINOR, "m"),
        (TRIAD_SUS2, "sus2"),
        (TRIAD_AUG, "aug"),
        (TRIAD_DIM, "dim"),
    ];

    let mut renderer = ChordRenderer::new();
    renderer.init_background();

    for (i, (text, _)) in test_files.iter().enumerate() {
        let chord = ChordParser::parse_str(text).unwrap();
        renderer.render_chord(&chord, 100 + i as i32 * 100, 200);
    }

    let content = renderer.to_svg();
    for (_, expected_text) in test_files {
        assert!(content.contains(expected_text));
    }
}

#[test]
fn test_render_at_boundaries() {
    let chord = ChordParser::parse_str(TRIAD_MAJOR).unwrap();

    let mut renderer = ChordRenderer::new();
    renderer
        .init_background()
        .render_chord(&chord, 0, 0) // Top-left
        .render_chord(&chord, SVG_WIDTH, SVG_HEIGHT); // Bottom-right

    assert!(!renderer.to_svg().is_empty());
    assert_eq!(renderer.glyphs().len(), 3);
}

#[test]
fn test_save_to_invalid_path() {
    let chord = ChordParser::parse_str(TRIAD_MAJOR).unwrap();

    let mut renderer = ChordRenderer::new();
    renderer.init_background().render_chord(&chord, 400, 200);

    let path = "/invalid/path/test.svg";
    assert!(!renderer.to_svg().is_empty());
    // What writing into a directory that is not there gives the command-line tool.
    let written = Err("No such file or directory (os error 2)".to_string());
    let result = ChordRenderer::saved(path, written);
    assert!(result.is_err());
}

#[test]
fn test_render_measure() {
    let chords = vec![
        Chord {
            degree: 1,
            quality: ChordQuality::Major,
        },
        Chord {
            degree: 4,
            quality: ChordQuality::Major,
        },
        Chord {
            degree: 5,
            quality: ChordQuality::Major,
        },
    ];
    let measure = Measure::with_chords(chords);

    let mut renderer = ChordRenderer::new();
    renderer
        .init_background()
        .render_measure(&measure, 100, 200);

    let content = renderer.to_svg();
    assert!(content.contains("1")); // First chord
    assert!(content.contains("4")); // Second chord
    assert!(content.contains("5")); // Third chord
}

#[test]
fn measure_chords_are_spaced_evenly() {
    let measure = Measure::with_chords(vec![
        Chord { degree: 1, quality: ChordQuality::Major },
        Chord { degree: 4, quality: ChordQuality::Minor },
        Chord { degree: 5, quality: ChordQuality::Sus4 },
    ]);
    let mut renderer = ChordRenderer::new();
    renderer.render_measure(&measure, 100, 200);
    let glyphs = renderer.glyphs();
    assert_eq!(glyphs.len(), 3);
    assert!(matches!(&glyphs[0], Glyph::Label { x: 100, y: 200, text } if text == "1"));
    assert!(matches!(&glyphs[1], Glyph::Label { x: 200, y: 200, text } if text == "4m"));
    assert!(matches!(&glyphs[2], Glyph::Label { x: 300, y: 200, text } if text == "5sus4"));
}

#[test]
fn notation_table_is_total() {
    let expected = [
        (ChordQuality::Major, "", ""),
        (ChordQuality::Minor, "m", "-"),
        (ChordQuality::Sus2, "sus2", "sus2"),
        (ChordQuality::Sus4, "sus4", "sus4"),
        (ChordQuality::Aug, "aug", "+"),
        (ChordQuality::Dim, "dim", "\u{ba}"),
    ];
    let regular = ChordRenderer::with_notation(NotationType::Regular);
    let compact = ChordRenderer::with_notation(NotationType::Compact);
    for (quality, r, c) in expected {
        assert_eq!(regular.quality_to_string(&quality), r);
        assert_eq!(compact.quality_to_string(&quality), c);
    }
    assert_eq!(ChordRenderer::new().quality_to_string(&ChordQuality::Minor), "m");
}

#[test]
fn chord_labels_put_the_degree_first() {
    let compact = ChordRenderer::with_notation(NotationType::Compact);
    assert_eq!(compact.chord_label(&Chord { degree: 2, quality: ChordQuality::Minor }), "2-");
    assert_eq!(compact.chord_label(&Chord { degree: 7, quality: ChordQuality::Dim }), "7\u{ba}");
    assert_eq!(compact.chord_label(&Chord { degree: 12, quality: ChordQuality::Aug }), "12+");
    let regular = ChordRenderer::new();
    assert_eq!(regular.chord_label(&Chord { degree: -3, quality: ChordQuality::Minor }), "-3m");
    assert_eq!(regular.chord_label(&Chord { degree: i32::MIN, quality: ChordQuality::Major }), "-2147483648");
    assert_eq!(regular.chord_label(&Chord { degree: 0, quality: ChordQuality::Sus2 }), "0sus2");
}

#[test]
fn repeat_marks_put_dots_inside_the_section() {
    let begin = Glyph::Repeat { x: 100, y: 200, sign: RepeatSign::Begin }.primitives();
    assert_eq!(begin.len(), 4);
    assert!(matches!(begin[0], Primitive::Bar { x: 100, y1: 167, y2: 233 }));
    assert!(matches!(begin[1], Primitive::Bar { x: 103, y1: 167, y2: 233 }));
    assert!(matches!(begin[2], Primitive::Dot { x: 109, y: 194, r: 2 }));
    assert!(matches!(begin[3], Primitive::Dot { x: 109, y: 206, r: 2 }));
    let end = Glyph::Repeat { x: 600, y: 200, sign: RepeatSign::End }.primitives();
    assert!(matches!(end[2], Primitive::Dot { x: 594, y: 194, r: 2 }));
    assert!(matches!(end[3], Primitive::Dot { x: 594, y: 206, r: 2 }));
    let spacer = Glyph::Spacer { x: 350, y: 200 }.primitives();
    assert_eq!(spacer.len(), 1);
    assert!(matches!(spacer[0], Primitive::Dot { x: 350, y: 200, r: 3 }));
}

#[test]
fn repeat_and_spacer_glyphs_are_recorded() {
    let mut renderer = ChordRenderer::new();
    renderer.render_repeat(&RepeatSign::Begin, 10, 20).render_spacer(30, 40);
    assert!(matches!(renderer.glyphs()[0], Glyph::Repeat { x: 10, y: 20, sign: RepeatSign::Begin }));
    assert!(matches!(renderer.glyphs()[1], Glyph::Spacer { x: 30, y: 40 }));
    let markup = renderer.to_svg();
    assert!(markup.contains("<line"));
    assert!(markup.contains("<circle"));
}

#[test]
fn svg_markup_holds_each_label() {
    let mut renderer = ChordRenderer::with_notation(NotationType::Compact);
    renderer.init_background().render_chord(&Chord { degree: 6, quality: ChordQuality::Minor }, 400, 200);
    let markup = renderer.to_svg();
    assert!(markup.contains("6-"));
    assert!(markup.contains("<rect"));
    assert!(markup.contains("<text"));
    assert!(markup.contains("width=\"800\""));
    assert!(markup.contains("height=\"400\""));
    assert!(markup.contains("viewBox=\"0 0 800 400\""));
    assert_eq!(markup.matches("<g>").count(), 2);
}

#[test]
fn empty_canvas_is_a_sized_document() {
    let markup = ChordRenderer::new().to_svg();
    assert!(markup.starts_with("<svg"));
    assert!(markup.contains("viewBox=\"0 0 800 400\""));
    assert!(!markup.contains("<g"));
}

#[test]
fn failed_writes_are_save_errors() {
    match ChordRenderer::saved("out.svg", Err("denied".to_string())) {
        Err(ChartError::SaveError { path, reason }) => {
            assert_eq!(path, "out.svg");
            assert_eq!(reason, "denied");
        },
        other => panic!("unexpected {:?}", other),
    }
    assert!(ChordRenderer::saved("out.svg", Ok(())).is_ok());
    let err = ChordRenderer::saved("out.svg", Err("denied".to_string())).unwrap_err();
    assert_eq!(err.message(), "Failed to save SVG: denied");
}
