use vstd::prelude::*;
use crate::numeral::{decimal, decimal_string, digits, digits_string};

verus! {

/// A key of a chart document.
#[derive(Debug, Clone, Copy, PartialEq, Eq, Structural)]
pub enum Field {
    Degree,
    Quality,
    Chord,
    Measures,
    Line,
    Type,
    Content,
}

/// Why a document is not well-formed structured data of the expected shape.
#[derive(Debug, Clone)]
pub enum FormatIssue {
    /// The text is no YAML; the message is the YAML reader's.
    Syntax(String),
    /// The top-level value is no mapping.
    NotMapping,
    /// The value under this key has the wrong shape.
    WrongType(Field),
}

/// A failure to read, decode, validate or save a chart.
#[derive(Debug, Clone)]
pub enum ChartError {
    /// The input could not be read.
    NotFound { path: String, reason: String },
    /// The content is not of the expected structure.
    Format(FormatIssue),
    /// A required key is absent.
    MissingField(Field),
    /// A key holds a label that names none of its allowed values.
    InvalidValue { field: Field, label: String },
    /// A chord degree is not positive; for a collection, the 1-based index of
    /// the measure that holds it.
    InvalidDegree { degree: i32, measure: Option<usize> },
    /// The output could not be written.
    SaveError { path: String, reason: String },
}

/// The key text of a field.
pub open spec fn field_key(f: Field) -> Seq<char> {
    match f {
        Field::Degree => "degree"@,
        Field::Quality => "quality"@,
        Field::Chord => "chord"@,
        Field::Measures => "measures"@,
        Field::Line => "line"@,
        Field::Type => "type"@,
        Field::Content => "content"@,
    }
}

/// The human-readable message of an error.
pub open spec fn error_message(e: ChartError) -> Seq<char> {
    match e {
        ChartError::NotFound { path, .. } => "No such file or directory: "@ + path@,
        ChartError::Format(FormatIssue::Syntax(m)) => "Failed to parse YAML: "@ + m@,
        ChartError::Format(FormatIssue::NotMapping) => "Failed to parse YAML: invalid format"@,
        ChartError::Format(FormatIssue::WrongType(f)) => "Failed to parse YAML: invalid type for "@ + field_key(f),
        ChartError::MissingField(_) => "Failed to parse YAML: missing required fields"@,
        ChartError::InvalidValue { .. } => "Failed to parse YAML: invalid field values"@,
        ChartError::InvalidDegree { degree, measure: None } => "Chord degree must be positive, got: "@ + decimal(degree as int),
        ChartError::InvalidDegree { degree, measure: Some(k) } => "Chord degree must be positive, got: "@ + decimal(degree as int)
            + " in measure "@ + decimal(k as int),
        ChartError::SaveError { reason, .. } => "Failed to save SVG: "@ + reason@,
    }
}

impl Field {
    /// The key under which this field stands in a document.
    pub fn key(&self) -> (r: &'static str)
        ensures
            r@ == field_key(*self),
    {
        match self {
            Field::Degree => "degree",
            Field::Quality => "quality",
            Field::Chord => "chord",
            Field::Measures => "measures",
            Field::Line => "line",
            Field::Type => "type",
            Field::Content => "content",
        }
    }
}

impl ChartError {
    /// The human-readable message of this error, with the context that
    /// locates it (path, offending degree, measure index).
    pub fn message(&self) -> (r: String)
        ensures
            r@ == error_message(*self),
    {
        match self {
            ChartError::NotFound { path, .. } => String::from_str("No such file or directory: ").concat(path.as_str()),
            ChartError::Format(FormatIssue::Syntax(m)) => String::from_str("Failed to parse YAML: ").concat(m.as_str()),
            ChartError::Format(FormatIssue::NotMapping) => String::from_str("Failed to parse YAML: invalid format"),
            ChartError::Format(FormatIssue::WrongType(f)) => String::from_str("Failed to parse YAML: invalid type for ").concat(f.key()),
            ChartError::MissingField(_) => String::from_str("Failed to parse YAML: missing required fields"),
            ChartError::InvalidValue { .. } => String::from_str("Failed to parse YAML: invalid field values"),
            ChartError::InvalidDegree { degree, measure } => {
                let text = String::from_str("Chord degree must be positive, got: ");
                let d = decimal_string(*degree as i64);
                let text = text.concat(d.as_str());
                match measure {
                    None => text,
                    Some(k) => {
                        let text = text.concat(" in measure ");
                        let n = digits_string(*k as u64);
                        assert(digits(*k as nat) == decimal(*k as int));
                        text.concat(n.as_str())
                    },
                }
            },
            ChartError::SaveError { reason, .. } => String::from_str("Failed to save SVG: ").concat(reason.as_str()),
        }
    }
}

} // verus!
