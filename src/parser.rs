use vstd::prelude::*;
use crate::chord::{Chord, ChordQuality, quality_of_label};
use crate::measure::{Measure, MeasureCollection};
use crate::yaml::{Yaml, field_of, load_yaml, yaml_of};
use crate::error::{ChartError, Field, FormatIssue};

verus! {

pub open spec fn key_degree() -> Seq<char> {
    seq!['d', 'e', 'g', 'r', 'e', 'e']
}

pub open spec fn key_quality() -> Seq<char> {
    seq!['q', 'u', 'a', 'l', 'i', 't', 'y']
}

pub open spec fn key_chord() -> Seq<char> {
    seq!['c', 'h', 'o', 'r', 'd']
}

pub open spec fn key_measures() -> Seq<char> {
    seq!['m', 'e', 'a', 's', 'u', 'r', 'e', 's']
}

/// A degree as a document writes it: an integer within `i32`.
pub open spec fn degree_value(v: Yaml) -> Result<i32, ChartError> {
    match v {
        Yaml::Int(n) => if i32::MIN <= n <= i32::MAX {
            Ok(n as i32)
        } else {
            Err(ChartError::Format(FormatIssue::WrongType(Field::Degree)))
        },
        _ => Err(ChartError::Format(FormatIssue::WrongType(Field::Degree))),
    }
}

/// A quality as a document writes it: one of the six labels, strictly.
pub open spec fn quality_value(v: Yaml) -> Result<ChordQuality, ChartError> {
    match v {
        Yaml::Text(s) => match quality_of_label(s@) {
            Some(q) => Ok(q),
            None => Err(ChartError::InvalidValue { field: Field::Quality, label: s }),
        },
        _ => Err(ChartError::Format(FormatIssue::WrongType(Field::Quality))),
    }
}

/// Decodes a chord mapping `{degree, quality}`; the degree is not yet checked.
pub open spec fn chord_value(v: Yaml) -> Result<Chord, ChartError> {
    if !(v is Mapping) {
        Err(ChartError::Format(FormatIssue::WrongType(Field::Chord)))
    } else {
        match field_of(v, key_degree()) {
            None => Err(ChartError::MissingField(Field::Degree)),
            Some(d) => match degree_value(d) {
                Err(e) => Err(e),
                Ok(degree) => match field_of(v, key_quality()) {
                    None => Err(ChartError::MissingField(Field::Quality)),
                    Some(q) => match quality_value(q) {
                        Err(e) => Err(e),
                        Ok(quality) => Ok(Chord { degree, quality }),
                    },
                },
            },
        }
    }
}

/// The degree of the first chord whose degree is not positive.
pub open spec fn first_invalid_degree(cs: Seq<Chord>) -> Option<i32>
    decreases cs.len(),
{
    if cs.len() == 0 {
        None
    } else if cs[0].degree <= 0 {
        Some(cs[0].degree)
    } else {
        first_invalid_degree(cs.drop_first())
    }
}

/// What a chord document decodes to.
pub open spec fn chord_document(doc: Yaml) -> Result<Chord, ChartError> {
    if !(doc is Mapping) {
        Err(ChartError::Format(FormatIssue::NotMapping))
    } else {
        match chord_value(doc) {
            Err(e) => Err(e),
            Ok(c) => if c.degree <= 0 {
                Err(ChartError::InvalidDegree { degree: c.degree, measure: None })
            } else {
                Ok(c)
            },
        }
    }
}

/// What a text read as YAML and then as a chord document decodes to.
pub open spec fn chord_text(text: Seq<char>) -> Result<Chord, ChartError> {
    match yaml_of(text) {
        Err(m) => Err(ChartError::Format(FormatIssue::Syntax(m))),
        Ok(doc) => chord_document(doc),
    }
}

/// Decodes a sequence of chord mappings; the first failing entry decides.
pub open spec fn chords_value(items: Seq<Yaml>) -> Result<Seq<Chord>, ChartError>
    decreases items.len(),
{
    if items.len() == 0 {
        Ok(Seq::empty())
    } else {
        match chords_value(items.drop_last()) {
            Err(e) => Err(e),
            Ok(cs) => match chord_value(items.last()) {
                Err(e) => Err(e),
                Ok(c) => Ok(cs.push(c)),
            },
        }
    }
}

/// Decodes a measure mapping `{chord: [..]}`; degrees are not yet checked.
pub open spec fn measure_value(v: Yaml) -> Result<Seq<Chord>, ChartError> {
    if !(v is Mapping) {
        Err(ChartError::Format(FormatIssue::WrongType(Field::Measures)))
    } else {
        match field_of(v, key_chord()) {
            None => Err(ChartError::MissingField(Field::Chord)),
            Some(Yaml::Sequence(items)) => chords_value(items@),
            Some(_) => Err(ChartError::Format(FormatIssue::WrongType(Field::Chord))),
        }
    }
}

/// Decodes a sequence of measure mappings; the first failing entry decides.
pub open spec fn measures_value(items: Seq<Yaml>) -> Result<Seq<Seq<Chord>>, ChartError>
    decreases items.len(),
{
    if items.len() == 0 {
        Ok(Seq::empty())
    } else {
        match measures_value(items.drop_last()) {
            Err(e) => Err(e),
            Ok(ms) => match measure_value(items.last()) {
                Err(e) => Err(e),
                Ok(m) => Ok(ms.push(m)),
            },
        }
    }
}

/// The first non-positive degree in a list of measures, with the 1-based
/// index of its measure; `base` is the number of measures before `ms`.
pub open spec fn first_invalid_in_measures(ms: Seq<Seq<Chord>>, base: int) -> Option<(i32, int)>
    decreases ms.len(),
{
    if ms.len() == 0 {
        None
    } else {
        match first_invalid_degree(ms[0]) {
            Some(d) => Some((d, base + 1)),
            None => first_invalid_in_measures(ms.drop_first(), base + 1),
        }
    }
}

/// What a measure document decodes to.
pub open spec fn measure_document(doc: Yaml) -> Result<Seq<Chord>, ChartError> {
    if !(doc is Mapping) {
        Err(ChartError::Format(FormatIssue::NotMapping))
    } else {
        match measure_value(doc) {
            Err(e) => Err(e),
            Ok(cs) => match first_invalid_degree(cs) {
                Some(d) => Err(ChartError::InvalidDegree { degree: d, measure: None }),
                None => Ok(cs),
            },
        }
    }
}

/// What a measure-collection document `{measures: [..]}` decodes to.
pub open spec fn collection_document(doc: Yaml) -> Result<Seq<Seq<Chord>>, ChartError> {
    if !(doc is Mapping) {
        Err(ChartError::Format(FormatIssue::NotMapping))
    } else {
        match field_of(doc, key_measures()) {
            None => Err(ChartError::MissingField(Field::Measures)),
            Some(Yaml::Sequence(items)) => match measures_value(items@) {
                Err(e) => Err(e),
                Ok(ms) => match first_invalid_in_measures(ms, 0) {
                    Some((d, k)) => Err(ChartError::InvalidDegree { degree: d, measure: Some(k as usize) }),
                    None => Ok(ms),
                },
            },
            Some(_) => Err(ChartError::Format(FormatIssue::WrongType(Field::Measures))),
        }
    }
}

/// What a text read as YAML and then as a measure document decodes to.
pub open spec fn measure_text(text: Seq<char>) -> Result<Seq<Chord>, ChartError> {
    match yaml_of(text) {
        Err(m) => Err(ChartError::Format(FormatIssue::Syntax(m))),
        Ok(doc) => measure_document(doc),
    }
}

/// What a text read as YAML and then as a collection document decodes to.
pub open spec fn collection_text(text: Seq<char>) -> Result<Seq<Seq<Chord>>, ChartError> {
    match yaml_of(text) {
        Err(m) => Err(ChartError::Format(FormatIssue::Syntax(m))),
        Ok(doc) => collection_document(doc),
    }
}

/// A decoded measure agrees with its specification.
pub open spec fn measure_outcome(r: Result<Measure, ChartError>, s: Result<Seq<Chord>, ChartError>) -> bool {
    match (r, s) {
        (Ok(m), Ok(cs)) => m@ == cs,
        (Err(e), Err(f)) => e == f,
        _ => false,
    }
}

/// A decoded collection agrees with its specification.
pub open spec fn collection_outcome(
    r: Result<MeasureCollection, ChartError>,
    s: Result<Seq<Seq<Chord>>, ChartError>,
) -> bool {
    match (r, s) {
        (Ok(c), Ok(ms)) => c.spec_chords() == ms,
        (Err(e), Err(f)) => e == f,
        _ => false,
    }
}


/// When no degree is flagged, every chord is valid.
pub proof fn lemma_all_valid_without_invalid_degree(cs: Seq<Chord>)
    requires
        first_invalid_degree(cs) is None,
    ensures
        forall|i: int| 0 <= i < cs.len() ==> #[trigger] cs[i].is_valid(),
    decreases cs.len(),
{
    if cs.len() > 0 {
        lemma_all_valid_without_invalid_degree(cs.drop_first());
        assert forall|i: int| 0 <= i < cs.len() implies #[trigger] cs[i].is_valid() by {
            if i > 0 {
                assert(cs[i] == cs.drop_first()[i - 1]);
            }
        }
    }
}

/// When no measure is flagged, every chord of every measure is valid.
pub proof fn lemma_all_valid_without_invalid_measure(ms: Seq<Seq<Chord>>, base: int)
    requires
        first_invalid_in_measures(ms, base) is None,
    ensures
        forall|k: int, i: int| 0 <= k < ms.len() && 0 <= i < ms[k].len() ==> #[trigger] ms[k][i].is_valid(),
    decreases ms.len(),
{
    if ms.len() > 0 {
        lemma_all_valid_without_invalid_degree(ms[0]);
        lemma_all_valid_without_invalid_measure(ms.drop_first(), base + 1);
        assert forall|k: int, i: int| 0 <= k < ms.len() && 0 <= i < ms[k].len() implies #[trigger] ms[k][i].is_valid() by {
            if k > 0 {
                assert(ms[k] == ms.drop_first()[k - 1]);
            }
        }
    }
}

pub(crate) fn not_found(path: &str, reason: String) -> (r: ChartError)
    ensures
        r matches ChartError::NotFound { path: p, reason: q } && p@ == path@ && q == reason,
{
    ChartError::NotFound { path: String::from_str(path), reason }
}

pub(crate) fn wrong_type(field: Field) -> (r: ChartError)
    ensures
        r == ChartError::Format(FormatIssue::WrongType(field)),
{
    ChartError::Format(FormatIssue::WrongType(field))
}

pub(crate) fn decode_degree(v: &Yaml) -> (r: Result<i32, ChartError>)
    ensures
        r == degree_value(*v),
{
    match v {
        Yaml::Int(n) => if i32::MIN as i64 <= *n && *n <= i32::MAX as i64 {
            Ok(*n as i32)
        } else {
            Err(wrong_type(Field::Degree))
        },
        _ => Err(wrong_type(Field::Degree)),
    }
}

fn decode_quality(v: &Yaml) -> (r: Result<ChordQuality, ChartError>)
    ensures
        r == quality_value(*v),
{
    match v {
        Yaml::Text(s) => match ChordQuality::from_label(s.as_str()) {
            Some(q) => Ok(q),
            None => Err(ChartError::InvalidValue { field: Field::Quality, label: s.clone() }),
        },
        _ => Err(wrong_type(Field::Quality)),
    }
}

fn decode_chord(v: &Yaml) -> (r: Result<Chord, ChartError>)
    ensures
        r == chord_value(*v),
{
    proof {
        reveal_strlit("degree");
        reveal_strlit("quality");
        assert("degree"@ =~= key_degree());
        assert("quality"@ =~= key_quality());
    }
    if !matches!(v, Yaml::Mapping(_)) {
        return Err(wrong_type(Field::Chord));
    }
    let degree = match v.field("degree") {
        None => return Err(ChartError::MissingField(Field::Degree)),
        Some(d) => match decode_degree(d) {
            Err(e) => return Err(e),
            Ok(n) => n,
        },
    };
    let quality = match v.field("quality") {
        None => return Err(ChartError::MissingField(Field::Quality)),
        Some(q) => match decode_quality(q) {
            Err(e) => return Err(e),
            Ok(q) => q,
        },
    };
    Ok(Chord { degree, quality })
}

fn decode_chords(items: &Vec<Yaml>) -> (r: Result<Measure, ChartError>)
    ensures
        measure_outcome(r, chords_value(items@)),
{
    let mut m = Measure::new();
    let mut i: usize = 0;
    while i < items.len()
        invariant
            i <= items@.len(),
            chords_value(items@.subrange(0, i as int)) == Ok::<Seq<Chord>, ChartError>(m@),
        decreases items@.len() - i,
    {
        proof {
            assert(items@.subrange(0, i + 1).drop_last() =~= items@.subrange(0, i as int));
        }
        match decode_chord(&items[i]) {
            Err(e) => {
                proof {
                    lemma_chords_value_prefix_err(items@, i as int + 1);
                }
                return Err(e);
            },
            Ok(c) => m.add_chord(c),
        }
        i = i + 1;
    }
    assert(items@.subrange(0, i as int) =~= items@);
    Ok(m)
}

proof fn lemma_chords_value_prefix_err(items: Seq<Yaml>, n: int)
    requires
        0 <= n <= items.len(),
        chords_value(items.subrange(0, n)) is Err,
    ensures
        chords_value(items) == chords_value(items.subrange(0, n)),
    decreases items.len() - n,
{
    if n < items.len() {
        assert(items.subrange(0, n + 1).drop_last() =~= items.subrange(0, n));
        lemma_chords_value_prefix_err(items, n + 1);
    } else {
        assert(items.subrange(0, n) =~= items);
    }
}

proof fn lemma_measures_value_prefix_err(items: Seq<Yaml>, n: int)
    requires
        0 <= n <= items.len(),
        measures_value(items.subrange(0, n)) is Err,
    ensures
        measures_value(items) == measures_value(items.subrange(0, n)),
    decreases items.len() - n,
{
    if n < items.len() {
        assert(items.subrange(0, n + 1).drop_last() =~= items.subrange(0, n));
        lemma_measures_value_prefix_err(items, n + 1);
    } else {
        assert(items.subrange(0, n) =~= items);
    }
}

fn decode_measure(v: &Yaml) -> (r: Result<Measure, ChartError>)
    ensures
        measure_outcome(r, measure_value(*v)),
{
    proof {
        reveal_strlit("chord");
        assert("chord"@ =~= key_chord());
    }
    if !matches!(v, Yaml::Mapping(_)) {
        return Err(wrong_type(Field::Measures));
    }
    match v.field("chord") {
        None => Err(ChartError::MissingField(Field::Chord)),
        Some(Yaml::Sequence(items)) => decode_chords(items),
        Some(_) => Err(wrong_type(Field::Chord)),
    }
}

/// The position of the first chord whose degree is not positive.
fn find_invalid_degree(m: &Measure) -> (r: Option<i32>)
    ensures
        r == first_invalid_degree(m@),
{
    let chords = m.get_chords();
    let mut i: usize = 0;
    assert(m@.skip(0) =~= m@);
    while i < chords.len()
        invariant
            i <= chords@.len(),
            chords@.len() == m@.len(),
            forall|j: int| 0 <= j < chords@.len() ==> *chords@[j] == m@[j],
            first_invalid_degree(m@) == first_invalid_degree(m@.skip(i as int)),
        decreases chords@.len() - i,
    {
        proof {
            assert(m@.skip(i as int).drop_first() =~= m@.skip(i + 1));
        }
        if chords[i].degree <= 0 {
            return Some(chords[i].degree);
        }
        i = i + 1;
    }
    proof {
        assert(m@.skip(i as int).len() == 0);
    }
    None
}

fn decode_measures(items: &Vec<Yaml>) -> (r: Result<MeasureCollection, ChartError>)
    ensures
        collection_outcome(r, measures_value(items@)),
{
    let mut c = MeasureCollection::new();
    let mut i: usize = 0;
    assert(c.spec_chords() =~= Seq::<Seq<Chord>>::empty());
    while i < items.len()
        invariant
            i <= items@.len(),
            measures_value(items@.subrange(0, i as int)) == Ok::<Seq<Seq<Chord>>, ChartError>(c.spec_chords()),
        decreases items@.len() - i,
    {
        proof {
            assert(items@.subrange(0, i + 1).drop_last() =~= items@.subrange(0, i as int));
        }
        match decode_measure(&items[i]) {
            Err(e) => {
                proof {
                    lemma_measures_value_prefix_err(items@, i as int + 1);
                }
                return Err(e);
            },
            Ok(m) => {
                let ghost before = c.spec_chords();
                c.add_measure(m);
                assert(c.spec_chords() =~= before.push(m@));
            },
        }
        i = i + 1;
    }
    assert(items@.subrange(0, i as int) =~= items@);
    Ok(c)
}

fn find_invalid_in_measures(c: &MeasureCollection) -> (r: Option<(i32, usize)>)
    ensures
        match (r, first_invalid_in_measures(c.spec_chords(), 0)) {
            (None, None) => true,
            (Some((d, k)), Some((e, l))) => d == e && k == l,
            _ => false,
        },
{
    let ghost ms = c.spec_chords();
    let mut i: usize = 0;
    assert(ms.skip(0) =~= ms);
    while i < c.measures.len()
        invariant
            i <= c.measures@.len(),
            ms == c.spec_chords(),
            ms.len() == c.measures@.len(),
            first_invalid_in_measures(ms, 0) == first_invalid_in_measures(ms.skip(i as int), i as int),
        decreases c.measures@.len() - i,
    {
        proof {
            assert(ms.skip(i as int).drop_first() =~= ms.skip(i + 1));
            assert(ms.skip(i as int)[0] == c.measures@[i as int]@);
        }
        match find_invalid_degree(&c.measures[i]) {
            Some(d) => {
                return Some((d, i + 1));
            },
            None => {},
        }
        i = i + 1;
    }
    proof {
        assert(ms.skip(i as int).len() == 0);
    }
    None
}

/// Reads a single chord from a chart document.
pub struct ChordParser;

impl ChordParser {
    /// Decodes a chord document that has been read as YAML.
    pub fn parse_document(doc: &Yaml) -> (r: Result<Chord, ChartError>)
        ensures
            r == chord_document(*doc),
            r matches Ok(c) ==> c.is_valid(),
    {
        if !matches!(doc, Yaml::Mapping(_)) {
            return Err(ChartError::Format(FormatIssue::NotMapping));
        }
        match decode_chord(doc) {
            Err(e) => Err(e),
            Ok(c) => if c.degree <= 0 {
                Err(ChartError::InvalidDegree { degree: c.degree, measure: None })
            } else {
                Ok(c)
            },
        }
    }

    /// Reads a chord document from its text.
    pub fn parse_str(text: &str) -> (r: Result<Chord, ChartError>)
        ensures
            r == chord_text(text@),
    {
        match load_yaml(text) {
            Err(m) => Err(ChartError::Format(FormatIssue::Syntax(m))),
            Ok(doc) => ChordParser::parse_document(&doc),
        }
    }

    /// Decodes what reading the file at `path` gave: a failed read is
    /// `NotFound`, reported before any decoding.
    pub fn parse_loaded(path: &str, read: Result<String, String>) -> (r: Result<Chord, ChartError>)
        ensures
            match read {
                Err(reason) => r matches Err(ChartError::NotFound { path: p, reason: q }) && p@ == path@ && q == reason,
                Ok(text) => r == chord_text(text@),
            },
    {
        match read {
            Err(reason) => Err(not_found(path, reason)),
            Ok(text) => ChordParser::parse_str(text.as_str()),
        }
    }
}

/// Reads a measure from a chart document.
pub struct MeasureParser;

impl MeasureParser {
    /// Decodes a measure document that has been read as YAML.
    pub fn parse_document(doc: &Yaml) -> (r: Result<Measure, ChartError>)
        ensures
            measure_outcome(r, measure_document(*doc)),
            r matches Ok(m) ==> forall|i: int| 0 <= i < m@.len() ==> #[trigger] m@[i].is_valid(),
    {
        if !matches!(doc, Yaml::Mapping(_)) {
            return Err(ChartError::Format(FormatIssue::NotMapping));
        }
        match decode_measure(doc) {
            Err(e) => Err(e),
            Ok(m) => match find_invalid_degree(&m) {
                Some(d) => Err(ChartError::InvalidDegree { degree: d, measure: None }),
                None => {
                    proof {
                        lemma_all_valid_without_invalid_degree(m@);
                    }
                    Ok(m)
                },
            },
        }
    }

    /// Reads a measure document from its text.
    pub fn parse_str(text: &str) -> (r: Result<Measure, ChartError>)
        ensures
            measure_outcome(r, measure_text(text@)),
    {
        match load_yaml(text) {
            Err(m) => Err(ChartError::Format(FormatIssue::Syntax(m))),
            Ok(doc) => MeasureParser::parse_document(&doc),
        }
    }

    /// Decodes what reading the file at `path` gave: a failed read is
    /// `NotFound`, reported before any decoding.
    pub fn parse_loaded(path: &str, read: Result<String, String>) -> (r: Result<Measure, ChartError>)
        ensures
            match read {
                Err(reason) => r matches Err(ChartError::NotFound { path: p, reason: q }) && p@ == path@ && q == reason,
                Ok(text) => measure_outcome(r, measure_text(text@)),
            },
    {
        match read {
            Err(reason) => Err(not_found(path, reason)),
            Ok(text) => MeasureParser::parse_str(text.as_str()),
        }
    }
}

/// Reads a collection of measures from a chart document.
pub struct MeasureCollectionParser;

impl MeasureCollectionParser {
    /// Decodes a collection document that has been read as YAML.
    pub fn parse_document(doc: &Yaml) -> (r: Result<MeasureCollection, ChartError>)
        ensures
            collection_outcome(r, collection_document(*doc)),
            r matches Ok(c) ==> forall|k: int, i: int|
                0 <= k < c.spec_chords().len() && 0 <= i < c.spec_chords()[k].len()
                    ==> #[trigger] c.spec_chords()[k][i].is_valid(),
    {
        proof {
            reveal_strlit("measures");
            assert("measures"@ =~= key_measures());
        }
        if !matches!(doc, Yaml::Mapping(_)) {
            return Err(ChartError::Format(FormatIssue::NotMapping));
        }
        match doc.field("measures") {
            None => Err(ChartError::MissingField(Field::Measures)),
            Some(Yaml::Sequence(items)) => match decode_measures(items) {
                Err(e) => Err(e),
                Ok(c) => match find_invalid_in_measures(&c) {
                    Some((d, k)) => Err(ChartError::InvalidDegree { degree: d, measure: Some(k) }),
                    None => {
                        proof {
                            lemma_all_valid_without_invalid_measure(c.spec_chords(), 0);
                        }
                        Ok(c)
                    },
                },
            },
            Some(_) => Err(wrong_type(Field::Measures)),
        }
    }

    /// Reads a collection document from its text.
    pub fn parse_str(text: &str) -> (r: Result<MeasureCollection, ChartError>)
        ensures
            collection_outcome(r, collection_text(text@)),
    {
        match load_yaml(text) {
            Err(m) => Err(ChartError::Format(FormatIssue::Syntax(m))),
            Ok(doc) => MeasureCollectionParser::parse_document(&doc),
        }
    }

    /// Decodes what reading the file at `path` gave: a failed read is
    /// `NotFound`, reported before any decoding.
    pub fn parse_loaded(path: &str, read: Result<String, String>) -> (r: Result<MeasureCollection, ChartError>)
        ensures
            match read {
                Err(reason) => r matches Err(ChartError::NotFound { path: p, reason: q }) && p@ == path@ && q == reason,
                Ok(text) => collection_outcome(r, collection_text(text@)),
            },
    {
        match read {
            Err(reason) => Err(not_found(path, reason)),
            Ok(text) => MeasureCollectionParser::parse_str(text.as_str()),
        }
    }
}

} // verus!
