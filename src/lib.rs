//! Nashville-number chord charts: a typed model of chords, measures and
//! lines, a validating decoder for chart documents, and a layout engine that
//! places chord labels, repeat marks and spacers on an SVG canvas.

pub mod chord;
pub mod numeral;
pub mod measure;
pub mod line;
pub mod yaml;
pub mod error;
pub mod parser;
pub mod line_parser;
pub mod renderer;
pub mod encode;
