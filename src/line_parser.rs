use vstd::prelude::*;
use crate::error::{ChartError, Field, FormatIssue};
use crate::line::{ChordData, ChordDef, Line, LineElement, RepeatSign};
use crate::parser::{degree_value, decode_degree, key_chord, key_degree, key_quality, not_found, wrong_type};
use crate::yaml::{Yaml, field_of, load_yaml, yaml_of};

verus! {

pub open spec fn key_line() -> Seq<char> {
    seq!['l', 'i', 'n', 'e']
}

pub open spec fn key_type() -> Seq<char> {
    seq!['t', 'y', 'p', 'e']
}

pub open spec fn key_content() -> Seq<char> {
    seq!['c', 'o', 'n', 't', 'e', 'n', 't']
}

/// A line element as plain values: a measure's entries as (degree, label).
pub enum ElementView {
    Measure(Seq<(i32, Seq<char>)>),
    Repeat(RepeatSign),
    Spacer,
}

pub open spec fn element_view(e: LineElement) -> ElementView {
    match e {
        LineElement::Measure { measure } => ElementView::Measure(
            measure@.map_values(|d: ChordDef| (d.chord.degree, d.chord.quality@)),
        ),
        LineElement::Repeat { repeat } => ElementView::Repeat(repeat),
        LineElement::Spacer => ElementView::Spacer,
    }
}

/// A line-chart chord entry `{chord: {degree, quality}}`; any text is a
/// quality label here.
pub open spec fn line_chord_value(v: Yaml) -> Result<(i32, Seq<char>), ChartError> {
    if !(v is Mapping) {
        Err(ChartError::Format(FormatIssue::WrongType(Field::Content)))
    } else {
        match field_of(v, key_chord()) {
            None => Err(ChartError::MissingField(Field::Chord)),
            Some(c) => if !(c is Mapping) {
                Err(ChartError::Format(FormatIssue::WrongType(Field::Chord)))
            } else {
                match field_of(c, key_degree()) {
                    None => Err(ChartError::MissingField(Field::Degree)),
                    Some(d) => match degree_value(d) {
                        Err(e) => Err(e),
                        Ok(degree) => match field_of(c, key_quality()) {
                            None => Err(ChartError::MissingField(Field::Quality)),
                            Some(Yaml::Text(label)) => Ok((degree, label@)),
                            Some(_) => Err(ChartError::Format(FormatIssue::WrongType(Field::Quality))),
                        },
                    },
                }
            },
        }
    }
}

/// Decodes the entries of a line-chart measure; the first failing one decides.
pub open spec fn line_chords_value(items: Seq<Yaml>) -> Result<Seq<(i32, Seq<char>)>, ChartError>
    decreases items.len(),
{
    if items.len() == 0 {
        Ok(Seq::empty())
    } else {
        match line_chords_value(items.drop_last()) {
            Err(e) => Err(e),
            Ok(cs) => match line_chord_value(items.last()) {
                Err(e) => Err(e),
                Ok(c) => Ok(cs.push(c)),
            },
        }
    }
}

/// Decodes a tagged line element `{type, content}`.
pub open spec fn element_value(v: Yaml) -> Result<ElementView, ChartError> {
    if !(v is Mapping) {
        Err(ChartError::Format(FormatIssue::WrongType(Field::Line)))
    } else {
        match field_of(v, key_type()) {
            None => Err(ChartError::MissingField(Field::Type)),
            Some(Yaml::Text(tag)) => if tag@ == seq!['m', 'e', 'a', 's', 'u', 'r', 'e'] {
                match field_of(v, key_content()) {
                    None => Err(ChartError::MissingField(Field::Content)),
                    Some(Yaml::Sequence(items)) => match line_chords_value(items@) {
                        Err(e) => Err(e),
                        Ok(cs) => Ok(ElementView::Measure(cs)),
                    },
                    Some(_) => Err(ChartError::Format(FormatIssue::WrongType(Field::Content))),
                }
            } else if tag@ == seq!['r', 'e', 'p', 'e', 'a', 't'] {
                match field_of(v, key_content()) {
                    None => Err(ChartError::MissingField(Field::Content)),
                    Some(Yaml::Text(sign)) => if sign@ == seq!['b', 'e', 'g', 'i', 'n'] {
                        Ok(ElementView::Repeat(RepeatSign::Begin))
                    } else if sign@ == seq!['e', 'n', 'd'] {
                        Ok(ElementView::Repeat(RepeatSign::End))
                    } else {
                        Err(ChartError::InvalidValue { field: Field::Content, label: sign })
                    },
                    Some(_) => Err(ChartError::Format(FormatIssue::WrongType(Field::Content))),
                }
            } else if tag@ == seq!['s', 'p', 'a', 'c', 'e', 'r'] {
                Ok(ElementView::Spacer)
            } else {
                Err(ChartError::InvalidValue { field: Field::Type, label: tag })
            },
            Some(_) => Err(ChartError::Format(FormatIssue::WrongType(Field::Type))),
        }
    }
}

/// Decodes a sequence of line elements; the first failing one decides.
pub open spec fn elements_value(items: Seq<Yaml>) -> Result<Seq<ElementView>, ChartError>
    decreases items.len(),
{
    if items.len() == 0 {
        Ok(Seq::empty())
    } else {
        match elements_value(items.drop_last()) {
            Err(e) => Err(e),
            Ok(es) => match element_value(items.last()) {
                Err(e) => Err(e),
                Ok(x) => Ok(es.push(x)),
            },
        }
    }
}

/// What a line document `{line: [..]}` decodes to.
pub open spec fn line_document(doc: Yaml) -> Result<Seq<ElementView>, ChartError> {
    if !(doc is Mapping) {
        Err(ChartError::Format(FormatIssue::NotMapping))
    } else {
        match field_of(doc, key_line()) {
            None => Err(ChartError::MissingField(Field::Line)),
            Some(Yaml::Sequence(items)) => elements_value(items@),
            Some(_) => Err(ChartError::Format(FormatIssue::WrongType(Field::Line))),
        }
    }
}

/// What a text read as YAML and then as a line document decodes to.
pub open spec fn line_text(text: Seq<char>) -> Result<Seq<ElementView>, ChartError> {
    match yaml_of(text) {
        Err(m) => Err(ChartError::Format(FormatIssue::Syntax(m))),
        Ok(doc) => line_document(doc),
    }
}

/// A decoded line agrees with its specification.
pub open spec fn line_outcome(r: Result<Line, ChartError>, s: Result<Seq<ElementView>, ChartError>) -> bool {
    match (r, s) {
        (Ok(l), Ok(es)) => l.line@.map_values(|e: LineElement| element_view(e)) == es,
        (Err(e), Err(f)) => e == f,
        _ => false,
    }
}

fn decode_line_chord(v: &Yaml) -> (r: Result<ChordDef, ChartError>)
    ensures
        match (r, line_chord_value(*v)) {
            (Ok(d), Ok(c)) => (d.chord.degree, d.chord.quality@) == c,
            (Err(e), Err(f)) => e == f,
            _ => false,
        },
{
    proof {
        reveal_strlit("chord");
        reveal_strlit("degree");
        reveal_strlit("quality");
        assert("chord"@ =~= key_chord());
        assert("degree"@ =~= key_degree());
        assert("quality"@ =~= key_quality());
    }
    if !matches!(v, Yaml::Mapping(_)) {
        return Err(wrong_type(Field::Content));
    }
    let c = match v.field("chord") {
        None => return Err(ChartError::MissingField(Field::Chord)),
        Some(c) => c,
    };
    if !matches!(c, Yaml::Mapping(_)) {
        return Err(wrong_type(Field::Chord));
    }
    let degree = match c.field("degree") {
        None => return Err(ChartError::MissingField(Field::Degree)),
        Some(d) => match decode_degree(d) {
            Err(e) => return Err(e),
            Ok(n) => n,
        },
    };
    match c.field("quality") {
        None => Err(ChartError::MissingField(Field::Quality)),
        Some(Yaml::Text(label)) => Ok(ChordDef { chord: ChordData { degree, quality: label.clone() } }),
        Some(_) => Err(wrong_type(Field::Quality)),
    }
}

proof fn lemma_line_chords_value_prefix_err(items: Seq<Yaml>, n: int)
    requires
        0 <= n <= items.len(),
        line_chords_value(items.subrange(0, n)) is Err,
    ensures
        line_chords_value(items) == line_chords_value(items.subrange(0, n)),
    decreases items.len() - n,
{
    if n < items.len() {
        assert(items.subrange(0, n + 1).drop_last() =~= items.subrange(0, n));
        lemma_line_chords_value_prefix_err(items, n + 1);
    } else {
        assert(items.subrange(0, n) =~= items);
    }
}

proof fn lemma_elements_value_prefix_err(items: Seq<Yaml>, n: int)
    requires
        0 <= n <= items.len(),
        elements_value(items.subrange(0, n)) is Err,
    ensures
        elements_value(items) == elements_value(items.subrange(0, n)),
    decreases items.len() - n,
{
    if n < items.len() {
        assert(items.subrange(0, n + 1).drop_last() =~= items.subrange(0, n));
        lemma_elements_value_prefix_err(items, n + 1);
    } else {
        assert(items.subrange(0, n) =~= items);
    }
}

pub open spec fn def_view(d: ChordDef) -> (i32, Seq<char>) {
    (d.chord.degree, d.chord.quality@)
}

fn decode_line_chords(items: &Vec<Yaml>) -> (r: Result<Vec<ChordDef>, ChartError>)
    ensures
        match (r, line_chords_value(items@)) {
            (Ok(ds), Ok(cs)) => ds@.map_values(|d: ChordDef| def_view(d)) == cs,
            (Err(e), Err(f)) => e == f,
            _ => false,
        },
{
    let mut ds: Vec<ChordDef> = Vec::new();
    let mut i: usize = 0;
    assert(ds@.map_values(|d: ChordDef| def_view(d)) =~= Seq::<(i32, Seq<char>)>::empty());
    while i < items.len()
        invariant
            i <= items@.len(),
            line_chords_value(items@.subrange(0, i as int)) == Ok::<Seq<(i32, Seq<char>)>, ChartError>(
                ds@.map_values(|d: ChordDef| def_view(d)),
            ),
        decreases items@.len() - i,
    {
        proof {
            assert(items@.subrange(0, i + 1).drop_last() =~= items@.subrange(0, i as int));
        }
        match decode_line_chord(&items[i]) {
            Err(e) => {
                proof {
                    lemma_line_chords_value_prefix_err(items@, i as int + 1);
                }
                return Err(e);
            },
            Ok(d) => {
                let ghost before = ds@;
                ds.push(d);
                assert(ds@.map_values(|d: ChordDef| def_view(d)) =~= before.map_values(|d: ChordDef| def_view(d)).push(def_view(d)));
            },
        }
        i = i + 1;
    }
    assert(items@.subrange(0, i as int) =~= items@);
    Ok(ds)
}

fn decode_element(v: &Yaml) -> (r: Result<LineElement, ChartError>)
    ensures
        match (r, element_value(*v)) {
            (Ok(e), Ok(x)) => element_view(e) == x,
            (Err(e), Err(f)) => e == f,
            _ => false,
        },
{
    proof {
        reveal_strlit("type");
        reveal_strlit("content");
        reveal_strlit("measure");
        reveal_strlit("repeat");
        reveal_strlit("spacer");
        reveal_strlit("begin");
        reveal_strlit("end");
        assert("type"@ =~= key_type());
        assert("content"@ =~= key_content());
        assert("measure"@ =~= seq!['m', 'e', 'a', 's', 'u', 'r', 'e']);
        assert("repeat"@ =~= seq!['r', 'e', 'p', 'e', 'a', 't']);
        assert("spacer"@ =~= seq!['s', 'p', 'a', 'c', 'e', 'r']);
        assert("begin"@ =~= seq!['b', 'e', 'g', 'i', 'n']);
        assert("end"@ =~= seq!['e', 'n', 'd']);
    }
    if !matches!(v, Yaml::Mapping(_)) {
        return Err(wrong_type(Field::Line));
    }
    let tag = match v.field("type") {
        None => return Err(ChartError::MissingField(Field::Type)),
        Some(Yaml::Text(tag)) => tag,
        Some(_) => return Err(wrong_type(Field::Type)),
    };
    if crate::chord::text_is(tag.as_str(), "measure") {
        assert(tag@ =~= seq!['m', 'e', 'a', 's', 'u', 'r', 'e']);
        match v.field("content") {
            None => Err(ChartError::MissingField(Field::Content)),
            Some(Yaml::Sequence(items)) => match decode_line_chords(items) {
                Err(e) => Err(e),
                Ok(ds) => {
                    let e = LineElement::Measure { measure: ds };
                    assert(ds@.map_values(|d: ChordDef| (d.chord.degree, d.chord.quality@)) =~= ds@.map_values(|d: ChordDef| def_view(d)));
                    Ok(e)
                },
            },
            Some(_) => Err(wrong_type(Field::Content)),
        }
    } else if crate::chord::text_is(tag.as_str(), "repeat") {
        assert(tag@ =~= seq!['r', 'e', 'p', 'e', 'a', 't']);
        assert(tag@ != seq!['m', 'e', 'a', 's', 'u', 'r', 'e']);
        match v.field("content") {
            None => Err(ChartError::MissingField(Field::Content)),
            Some(Yaml::Text(sign)) => if crate::chord::text_is(sign.as_str(), "begin") {
                assert(sign@ =~= seq!['b', 'e', 'g', 'i', 'n']);
                Ok(LineElement::Repeat { repeat: RepeatSign::Begin })
            } else if crate::chord::text_is(sign.as_str(), "end") {
                assert(sign@ =~= seq!['e', 'n', 'd']);
                assert(sign@ != seq!['b', 'e', 'g', 'i', 'n']);
                Ok(LineElement::Repeat { repeat: RepeatSign::End })
            } else {
                assert(sign@ != seq!['b', 'e', 'g', 'i', 'n']);
                assert(sign@ != seq!['e', 'n', 'd']);
                Err(ChartError::InvalidValue { field: Field::Content, label: sign.clone() })
            },
            Some(_) => Err(wrong_type(Field::Content)),
        }
    } else if crate::chord::text_is(tag.as_str(), "spacer") {
        assert(tag@ =~= seq!['s', 'p', 'a', 'c', 'e', 'r']);
        assert(tag@ != seq!['m', 'e', 'a', 's', 'u', 'r', 'e']);
        assert(tag@ != seq!['r', 'e', 'p', 'e', 'a', 't']);
        Ok(LineElement::Spacer)
    } else {
        assert(tag@ != seq!['m', 'e', 'a', 's', 'u', 'r', 'e']);
        assert(tag@ != seq!['r', 'e', 'p', 'e', 'a', 't']);
        assert(tag@ != seq!['s', 'p', 'a', 'c', 'e', 'r']);
        Err(ChartError::InvalidValue { field: Field::Type, label: tag.clone() })
    }
}

fn decode_elements(items: &Vec<Yaml>) -> (r: Result<Line, ChartError>)
    ensures
        line_outcome(r, elements_value(items@)),
{
    let mut line = Line::new();
    let mut i: usize = 0;
    assert(line.line@.map_values(|e: LineElement| element_view(e)) =~= Seq::<ElementView>::empty());
    while i < items.len()
        invariant
            i <= items@.len(),
            elements_value(items@.subrange(0, i as int)) == Ok::<Seq<ElementView>, ChartError>(
                line.line@.map_values(|e: LineElement| element_view(e)),
            ),
        decreases items@.len() - i,
    {
        proof {
            assert(items@.subrange(0, i + 1).drop_last() =~= items@.subrange(0, i as int));
        }
        match decode_element(&items[i]) {
            Err(e) => {
                proof {
                    lemma_elements_value_prefix_err(items@, i as int + 1);
                }
                return Err(e);
            },
            Ok(e) => {
                let ghost before = line.line@;
                let ghost x = element_view(e);
                line.add_element(e);
                assert(line.line@.map_values(|e: LineElement| element_view(e)) =~= before.map_values(|e: LineElement| element_view(e)).push(x));
            },
        }
        i = i + 1;
    }
    assert(items@.subrange(0, i as int) =~= items@);
    Ok(line)
}

/// Reads a line chart: measures, repeat marks and spacers. Quality labels are
/// read leniently here (see `ChordQuality::from_label_or_major`).
pub struct LineParser;

impl LineParser {
    /// Decodes a line document that has been read as YAML.
    pub fn parse_document(doc: &Yaml) -> (r: Result<Line, ChartError>)
        ensures
            line_outcome(r, line_document(*doc)),
    {
        proof {
            reveal_strlit("line");
            assert("line"@ =~= key_line());
        }
        if !matches!(doc, Yaml::Mapping(_)) {
            return Err(ChartError::Format(FormatIssue::NotMapping));
        }
        match doc.field("line") {
            None => Err(ChartError::MissingField(Field::Line)),
            Some(Yaml::Sequence(items)) => decode_elements(items),
            Some(_) => Err(wrong_type(Field::Line)),
        }
    }

    /// Reads a line document from its text.
    pub fn parse_str(text: &str) -> (r: Result<Line, ChartError>)
        ensures
            line_outcome(r, line_text(text@)),
    {
        match load_yaml(text) {
            Err(m) => Err(ChartError::Format(FormatIssue::Syntax(m))),
            Ok(doc) => LineParser::parse_document(&doc),
        }
    }

    /// Decodes what reading the file at `path` gave: a failed read is
    /// `NotFound`, reported before any decoding.
    pub fn parse_loaded(path: &str, read: Result<String, String>) -> (r: Result<Line, ChartError>)
        ensures
            match read {
                Err(reason) => r matches Err(ChartError::NotFound { path: p, reason: q }) && p@ == path@ && q == reason,
                Ok(text) => line_outcome(r, line_text(text@)),
            },
    {
        match read {
            Err(reason) => Err(not_found(path, reason)),
            Ok(text) => LineParser::parse_str(text.as_str()),
        }
    }
}

} // verus!
