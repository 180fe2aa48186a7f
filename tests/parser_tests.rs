use nns_chart::{
    chord::ChordQuality,
    error::{ChartError, Field, FormatIssue},
    line_parser::LineParser,
    parser::{ChordParser, MeasureCollectionParser, MeasureParser},
};

const TRIAD_MAJOR: &str = "degree: 1\nquality: major\n";
const TRIAD_MINOR: &str = "degree: 1\nquality: minor\n";
const TRIAD_SUS2: &str = "degree: 1\nquality: sus2\n";
const TRIAD_SUS4: &str = "degree: 1\nquality: sus4\n";
const TRIAD_AUG: &str = "degree: 1\nquality: aug\n";
const TRIAD_DIM: &str = "degree: 1\nquality: dim\n";
const INVALID_CHORD: &str = "- degree: 1\n- quality: major\n";
const MISSING_FIELDS: &str = "quality: major\n";
const INVALID_DEGREE: &str = "degree: 0\nquality: major\n";
const INVALID_QUALITY: &str = "degree: 1\nquality: blah\n";
const MEASURE: &str = "chord:\n  - degree: 1\n    quality: major\n  - degree: 4\n    quality: major\n  - degree: 5\n    quality: major\n";
const MEASURE_INVALID_CHORD: &str = "chord:\n  - degree: 1\n    quality: major\n  - degree: -4\n    quality: major\n";
const MULTIPLE_MEASURES: &str = "measures:
  - chord:
      - degree: 1
        quality: major
      - degree: 4
        quality: major
      - degree: 5
        quality: major
  - chord:
      - degree: 6
        quality: minor
      - degree: 2
        quality: minor
      - degree: 5
        quality: major
      - degree: 1
        quality: major
  - chord:
      - degree: 4
        quality: major
      - degree: 5
        quality: major
";
const INVALID_MULTIPLE_MEASURES: &str = "measures:
  - chord:
      - degree: 1
        quality: major
  - chord:
      - degree: 0
        quality: minor
";

/// What reading a file that is not there gives the command-line tool.
fn read(_path: &str) -> Result<String, String> {
    Err("No such file or directory (os error 2)".to_string())
}

#[test]
fn test_parse_valid_chord() {
    let chord = ChordParser::parse_str(TRIAD_MINOR).unwrap();
    assert_eq!(chord.degree, 1);
    assert_eq!(chord.quality, ChordQuality::Minor);
}

#[test]
fn test_parse_invalid_chord() {
    let result = ChordParser::parse_str(INVALID_CHORD);
    assert!(result.is_err());
    assert!(result.unwrap_err().message().contains("Failed to parse YAML"));
}

#[test]
fn test_parse_all_qualities() {
    let test_files = [
        (TRIAD_MAJOR, ChordQuality::Major),
        (TRIAD_MINOR, ChordQuality::Minor),
        (TRIAD_SUS2, ChordQuality::Sus2),
        (TRIAD_SUS4, ChordQuality::Sus4),
        (TRIAD_AUG, ChordQuality::Aug),
        (TRIAD_DIM, ChordQuality::Dim),
    ];

    for (text, expected_quality) in test_files {
        let chord = ChordParser::parse_str(text).unwrap();
        assert_eq!(chord.quality, expected_quality);
    }
}

#[test]
fn test_parse_missing_fields() {
    let result = ChordParser::parse_str(MISSING_FIELDS);
    assert!(result.is_err());
    assert!(result.unwrap_err().message().contains("missing required fields"));
}

#[test]
fn test_parse_invalid_degree() {
    let result = ChordParser::parse_str(INVALID_DEGREE);
    assert!(result.is_err());
    assert!(result.unwrap_err().message().contains("must be positive"));
}

#[test]
fn test_parse_invalid_quality() {
    let result = ChordParser::parse_str(INVALID_QUALITY);
    assert!(result.is_err());
    assert!(result.unwrap_err().message().contains("invalid field values"));
}

#[test]
fn test_parse_nonexistent_file() {
    let path = "tests/fixtures/nonexistent.yaml";
    let result = ChordParser::parse_loaded(path, read(path));
    assert!(result.is_err());
    assert!(result.unwrap_err().message().contains("No such file or directory"));
}

#[test]
fn test_parse_measure() {
    let measure = MeasureParser::parse_str(MEASURE).unwrap();
    let chords = measure.get_chords();
    assert_eq!(chords.len(), 3);
    assert_eq!(chords[0].degree, 1);
    assert_eq!(chords[0].quality, ChordQuality::Major);
    assert_eq!(chords[1].degree, 4);
    assert_eq!(chords[1].quality, ChordQuality::Major);
    assert_eq!(chords[2].degree, 5);
    assert_eq!(chords[2].quality, ChordQuality::Major);
}

#[test]
fn test_parse_invalid_measure() {
    let path = "tests/fixtures/measures/nonexistent.yaml";
    let result = MeasureParser::parse_loaded(path, read(path));
    assert!(result.is_err());
    assert!(result.unwrap_err().message().contains("No such file or directory"));
}

#[test]
fn test_parse_measure_with_invalid_chord() {
    let result = MeasureParser::parse_str(MEASURE_INVALID_CHORD);
    assert!(result.is_err());
}

#[test]
fn test_parse_multiple_measures() {
    let collection = MeasureCollectionParser::parse_str(MULTIPLE_MEASURES).unwrap();

    assert_eq!(collection.measures.len(), 3);

    // Check first measure (I-IV-V)
    let chords = collection.measures[0].get_chords();
    assert_eq!(chords.len(), 3);
    assert_eq!(chords[0].degree, 1);
    assert_eq!(chords[0].quality, ChordQuality::Major);
    assert_eq!(chords[1].degree, 4);
    assert_eq!(chords[2].degree, 5);

    // Check second measure (vi-ii-V-I)
    let chords = collection.measures[1].get_chords();
    assert_eq!(chords.len(), 4);
    assert_eq!(chords[0].degree, 6);
    assert_eq!(chords[0].quality, ChordQuality::Minor);
    assert_eq!(chords[1].degree, 2);
    assert_eq!(chords[1].quality, ChordQuality::Minor);
    assert_eq!(chords[2].degree, 5);
    assert_eq!(chords[3].degree, 1);

    // Check third measure (IV-V)
    let chords = collection.measures[2].get_chords();
    assert_eq!(chords.len(), 2);
    assert_eq!(chords[0].degree, 4);
    assert_eq!(chords[1].degree, 5);
}

#[test]
fn test_parse_invalid_multiple_measures() {
    let result = MeasureCollectionParser::parse_str(INVALID_MULTIPLE_MEASURES);
    assert!(result.is_err());
    assert!(result.unwrap_err().message().contains("must be positive"));
}

#[test]
fn test_parse_nonexistent_multiple_measures() {
    let path = "tests/fixtures/measures/nonexistent.yaml";
    let result = MeasureCollectionParser::parse_loaded(path, read(path));
    assert!(result.is_err());
    assert!(result.unwrap_err().message().contains("No such file or directory"));
}

#[test]
fn error_kinds_are_distinguishable() {
    assert!(matches!(
        ChordParser::parse_str(MISSING_FIELDS),
        Err(ChartError::MissingField(Field::Degree))
    ));
    match ChordParser::parse_str(INVALID_QUALITY) {
        Err(ChartError::InvalidValue { field: Field::Quality, label }) => assert_eq!(label, "blah"),
        other => panic!("unexpected {:?}", other),
    }
    let path = "tests/fixtures/nonexistent.yaml";
    match ChordParser::parse_loaded(path, read(path)) {
        Err(ChartError::NotFound { path: p, .. }) => assert_eq!(p, path),
        other => panic!("unexpected {:?}", other),
    }
}

#[test]
fn missing_quality_is_a_missing_field() {
    assert!(matches!(
        ChordParser::parse_str("degree: 3\n"),
        Err(ChartError::MissingField(Field::Quality))
    ));
}

#[test]
fn non_positive_degrees_are_refused_in_every_shape() {
    for degree in [0, -1, -7, i32::MIN] {
        let chord = format!("degree: {}\nquality: minor\n", degree);
        assert!(matches!(
            ChordParser::parse_str(&chord),
            Err(ChartError::InvalidDegree { degree: d, measure: None }) if d == degree
        ));
        let measure = format!("chord:\n  - degree: 2\n    quality: major\n  - degree: {}\n    quality: major\n", degree);
        assert!(matches!(
            MeasureParser::parse_str(&measure),
            Err(ChartError::InvalidDegree { degree: d, measure: None }) if d == degree
        ));
    }
}

#[test]
fn collection_reports_the_measure_of_the_bad_degree() {
    let result = MeasureCollectionParser::parse_str(INVALID_MULTIPLE_MEASURES);
    let err = result.unwrap_err();
    assert!(matches!(err, ChartError::InvalidDegree { degree: 0, measure: Some(2) }));
    assert_eq!(err.message(), "Chord degree must be positive, got: 0 in measure 2");
    let text = "measures:\n  - chord:\n      - degree: -3\n        quality: major\n  - chord:\n      - degree: 0\n        quality: major\n";
    assert!(matches!(
        MeasureCollectionParser::parse_str(text),
        Err(ChartError::InvalidDegree { degree: -3, measure: Some(1) })
    ));
}

#[test]
fn decoding_errors_come_before_degree_checks() {
    let text = "chord:\n  - degree: 0\n    quality: major\n  - degree: 2\n    quality: blah\n";
    assert!(matches!(
        MeasureParser::parse_str(text),
        Err(ChartError::InvalidValue { field: Field::Quality, .. })
    ));
}

#[test]
fn malformed_documents_are_format_errors() {
    assert!(matches!(
        ChordParser::parse_str(INVALID_CHORD),
        Err(ChartError::Format(FormatIssue::NotMapping))
    ));
    assert!(matches!(
        ChordParser::parse_str("degree: [1\n"),
        Err(ChartError::Format(FormatIssue::Syntax(_)))
    ));
    assert!(matches!(
        ChordParser::parse_str("degree: 1.5\nquality: major\n"),
        Err(ChartError::Format(FormatIssue::WrongType(Field::Degree)))
    ));
    assert!(matches!(
        ChordParser::parse_str("degree: 4294967296\nquality: major\n"),
        Err(ChartError::Format(FormatIssue::WrongType(Field::Degree)))
    ));
    assert!(matches!(
        ChordParser::parse_str("degree: 1\nquality: [major]\n"),
        Err(ChartError::Format(FormatIssue::WrongType(Field::Quality)))
    ));
    assert!(matches!(
        MeasureParser::parse_str("chord: 3\n"),
        Err(ChartError::Format(FormatIssue::WrongType(Field::Chord)))
    ));
    assert!(matches!(
        MeasureCollectionParser::parse_str("measures: {}\n"),
        Err(ChartError::Format(FormatIssue::WrongType(Field::Measures)))
    ));
    assert_eq!(
        ChordParser::parse_str("7\n").unwrap_err().message(),
        "Failed to parse YAML: invalid format"
    );
}

#[test]
fn empty_measure_and_collection_decode() {
    assert_eq!(MeasureParser::parse_str("chord: []\n").unwrap().len(), 0);
    assert_eq!(MeasureCollectionParser::parse_str("measures: []\n").unwrap().measures.len(), 0);
    assert!(matches!(
        MeasureParser::parse_str("other: 1\n"),
        Err(ChartError::MissingField(Field::Chord))
    ));
}

#[test]
fn unknown_keys_are_ignored() {
    let chord = ChordParser::parse_str("comment: hello\nquality: aug\ndegree: 3\n").unwrap();
    assert_eq!(chord.degree, 3);
    assert_eq!(chord.quality, ChordQuality::Aug);
}

#[test]
fn line_documents_decode_leniently() {
    let text = "line:
  - type: repeat
    content: begin
  - type: measure
    content:
      - chord:
          degree: 1
          quality: major
      - chord:
          degree: 4
          quality: weird
  - type: spacer
  - type: repeat
    content: end
";
    let line = LineParser::parse_str(text).unwrap();
    assert_eq!(line.line.len(), 4);
    match &line.line[1] {
        nns_chart::line::LineElement::Measure { measure } => {
            assert_eq!(measure.len(), 2);
            assert_eq!(measure[1].chord.degree, 4);
            assert_eq!(measure[1].chord.quality, "weird");
        },
        other => panic!("unexpected {:?}", other),
    }
    assert!(matches!(
        line.line[3],
        nns_chart::line::LineElement::Repeat { repeat: nns_chart::line::RepeatSign::End }
    ));
}

#[test]
fn line_documents_refuse_unknown_tags() {
    assert!(matches!(
        LineParser::parse_str("line:\n  - type: coda\n"),
        Err(ChartError::InvalidValue { field: Field::Type, .. })
    ));
    assert!(matches!(
        LineParser::parse_str("line:\n  - type: repeat\n    content: middle\n"),
        Err(ChartError::InvalidValue { field: Field::Content, .. })
    ));
    assert!(matches!(
        LineParser::parse_str("line:\n  - content: begin\n"),
        Err(ChartError::MissingField(Field::Type))
    ));
    assert!(matches!(
        LineParser::parse_str("line:\n  - type: measure\n    content:\n      - chord:\n          quality: major\n"),
        Err(ChartError::MissingField(Field::Degree))
    ));
    assert!(matches!(LineParser::parse_str("[]\n"), Err(ChartError::Format(FormatIssue::NotMapping))));
}
