use nns_chart::chord::{Chord, ChordQuality};
use nns_chart::parser::ChordParser;

#[test]
fn test_chord_quality_serialization() {
    // Test all chord qualities
    let qualities = vec![
        ChordQuality::Major,
        ChordQuality::Minor,
        ChordQuality::Sus2,
        ChordQuality::Sus4,
        ChordQuality::Aug,
        ChordQuality::Dim,
    ];

    for quality in qualities {
        let serialized = quality.label();
        let deserialized = ChordQuality::from_label(serialized).unwrap();
        assert_eq!(format!("{:?}", quality), format!("{:?}", deserialized));
    }
}

#[test]
fn test_chord_serialization() {
    let chord = Chord {
        degree: 1,
        quality: ChordQuality::Major,
    };

    let serialized = chord.to_yaml();
    let deserialized = ChordParser::parse_document(&serialized).unwrap();

    assert_eq!(chord.degree, deserialized.degree);
    assert_eq!(
        format!("{:?}", chord.quality),
        format!("{:?}", deserialized.quality)
    );
}

#[test]
fn test_chord_debug_format() {
    let chord = Chord {
        degree: 1,
        quality: ChordQuality::Major,
    };

    assert_eq!(
        format!("{:?}", chord),
        "Chord { degree: 1, quality: Major }"
    );
}

#[test]
fn quality_labels_are_strict_and_case_sensitive() {
    assert_eq!(ChordQuality::from_label("minor"), Some(ChordQuality::Minor));
    assert_eq!(ChordQuality::from_label("sus4"), Some(ChordQuality::Sus4));
    assert_eq!(ChordQuality::from_label("Minor"), None);
    assert_eq!(ChordQuality::from_label("blah"), None);
    assert_eq!(ChordQuality::from_label(""), None);
}

#[test]
fn lenient_quality_labels_default_to_major() {
    assert_eq!(ChordQuality::from_label_or_major("dim"), ChordQuality::Dim);
    assert_eq!(ChordQuality::from_label_or_major("blah"), ChordQuality::Major);
    assert_eq!(ChordQuality::from_label_or_major("MINOR"), ChordQuality::Major);
}

#[test]
fn every_chord_round_trips_through_a_document() {
    let qualities = [
        ChordQuality::Major,
        ChordQuality::Minor,
        ChordQuality::Sus2,
        ChordQuality::Sus4,
        ChordQuality::Aug,
        ChordQuality::Dim,
    ];
    for degree in [1, 2, 5, 7, 12, i32::MAX] {
        for quality in qualities {
            let chord = Chord { degree, quality };
            assert_eq!(ChordParser::parse_document(&chord.to_yaml()).unwrap(), chord);
            let text = format!("degree: {}\nquality: {}\n", degree, quality.label());
            assert_eq!(ChordParser::parse_str(&text).unwrap(), chord);
        }
    }
}
