use vstd::prelude::*;
use crate::chord::{Chord, quality_label, lemma_quality_label_round_trip};
use crate::measure::{Measure, MeasureCollection};
use crate::error::ChartError;
use crate::parser::{
    chord_document, chord_value, chords_value, collection_document, first_invalid_degree,
    first_invalid_in_measures, key_chord, key_degree, key_measures, key_quality, measure_document,
    measure_value, measures_value,
};
use crate::yaml::{Yaml, field_of, lookup};

verus! {

/// `y` is the mapping `{degree: <degree>, quality: <label>}` of chord `c`.
pub open spec fn is_chord_tree(y: Yaml, c: Chord) -> bool {
    &&& y matches Yaml::Mapping(es)
    &&& es@.len() == 2
    &&& es@[0].0 matches Yaml::Text(k) && k@ == key_degree()
    &&& es@[0].1 == Yaml::Int(c.degree as i64)
    &&& es@[1].0 matches Yaml::Text(k) && k@ == key_quality()
    &&& es@[1].1 matches Yaml::Text(l) && l@ == quality_label(c.quality)
}

/// `items` are the chord mappings of `cs`, in order.
pub open spec fn are_chord_trees(items: Seq<Yaml>, cs: Seq<Chord>) -> bool {
    &&& items.len() == cs.len()
    &&& forall|i: int| 0 <= i < items.len() ==> #[trigger] is_chord_tree(items[i], cs[i])
}

/// `y` is the mapping `{chord: [..]}` of a measure with chords `cs`.
pub open spec fn is_measure_tree(y: Yaml, cs: Seq<Chord>) -> bool {
    &&& y matches Yaml::Mapping(es)
    &&& es@.len() == 1
    &&& es@[0].0 matches Yaml::Text(k) && k@ == key_chord()
    &&& es@[0].1 matches Yaml::Sequence(items) && are_chord_trees(items@, cs)
}

/// `items` are the measure mappings of `ms`, in order.
pub open spec fn are_measure_trees(items: Seq<Yaml>, ms: Seq<Seq<Chord>>) -> bool {
    &&& items.len() == ms.len()
    &&& forall|i: int| 0 <= i < items.len() ==> #[trigger] is_measure_tree(items[i], ms[i])
}

/// `y` is the mapping `{measures: [..]}` of measures with chords `ms`.
pub open spec fn is_collection_tree(y: Yaml, ms: Seq<Seq<Chord>>) -> bool {
    &&& y matches Yaml::Mapping(es)
    &&& es@.len() == 1
    &&& es@[0].0 matches Yaml::Text(k) && k@ == key_measures()
    &&& es@[0].1 matches Yaml::Sequence(items) && are_measure_trees(items@, ms)
}

fn text_node(s: &str) -> (r: Yaml)
    ensures
        r matches Yaml::Text(t) && t@ == s@,
{
    Yaml::Text(String::from_str(s))
}

impl Chord {
    /// The chord as a document: `{degree: <degree>, quality: <label>}`.
    pub fn to_yaml(&self) -> (r: Yaml)
        ensures
            is_chord_tree(r, *self),
    {
        proof {
            reveal_strlit("degree");
            reveal_strlit("quality");
            assert("degree"@ =~= key_degree());
            assert("quality"@ =~= key_quality());
        }
        let entries = vec![
            (text_node("degree"), Yaml::Int(self.degree as i64)),
            (text_node("quality"), text_node(self.quality.label())),
        ];
        Yaml::Mapping(entries)
    }
}

impl Measure {
    /// The measure as a document: `{chord: [<chord>, ..]}`.
    pub fn to_yaml(&self) -> (r: Yaml)
        ensures
            is_measure_tree(r, self@),
    {
        proof {
            reveal_strlit("chord");
            assert("chord"@ =~= key_chord());
        }
        let chords = self.get_chords();
        let mut items: Vec<Yaml> = Vec::new();
        let mut i: usize = 0;
        while i < chords.len()
            invariant
                i <= chords@.len(),
                chords@.len() == self@.len(),
                forall|j: int| 0 <= j < chords@.len() ==> *chords@[j] == self@[j],
                are_chord_trees(items@, self@.take(i as int)),
            decreases chords@.len() - i,
        {
            let y = chords[i].to_yaml();
            items.push(y);
            i = i + 1;
            assert forall|j: int| 0 <= j < items@.len() implies #[trigger] is_chord_tree(items@[j], self@.take(i as int)[j]) by {
                if j < i - 1 {
                    assert(self@.take(i as int)[j] == self@.take(i - 1)[j]);
                }
            }
        }
        assert(self@.take(i as int) =~= self@);
        let entries = vec![(text_node("chord"), Yaml::Sequence(items))];
        Yaml::Mapping(entries)
    }
}

impl MeasureCollection {
    /// The collection as a document: `{measures: [<measure>, ..]}`.
    pub fn to_yaml(&self) -> (r: Yaml)
        ensures
            is_collection_tree(r, self.spec_chords()),
    {
        proof {
            reveal_strlit("measures");
            assert("measures"@ =~= key_measures());
        }
        let ghost ms = self.spec_chords();
        let mut items: Vec<Yaml> = Vec::new();
        let mut i: usize = 0;
        while i < self.measures.len()
            invariant
                i <= self.measures@.len(),
                ms == self.spec_chords(),
                ms.len() == self.measures@.len(),
                are_measure_trees(items@, ms.take(i as int)),
            decreases self.measures@.len() - i,
        {
            let y = self.measures[i].to_yaml();
            assert(ms[i as int] == self.measures@[i as int]@);
            items.push(y);
            i = i + 1;
            assert forall|j: int| 0 <= j < items@.len() implies #[trigger] is_measure_tree(items@[j], ms.take(i as int)[j]) by {
                if j < i - 1 {
                    assert(ms.take(i as int)[j] == ms.take(i - 1)[j]);
                }
            }
        }
        assert(ms.take(i as int) =~= ms);
        let entries = vec![(text_node("measures"), Yaml::Sequence(items))];
        Yaml::Mapping(entries)
    }
}

proof fn lemma_chord_value_of_tree(y: Yaml, c: Chord)
    requires
        is_chord_tree(y, c),
    ensures
        chord_value(y) == Ok::<Chord, ChartError>(c),
{
    let es = y->Mapping_0@;
    assert(key_degree() != key_quality()) by {
        assert(key_degree().len() != key_quality().len());
    }
    assert(es.drop_first()[0] == es[1]);
    assert(field_of(y, key_degree()) == Some(es[0].1));
    assert(lookup(es.drop_first(), key_quality()) == Some(es[1].1));
    assert(field_of(y, key_quality()) == Some(es[1].1));
    lemma_quality_label_round_trip(c.quality);
}

proof fn lemma_chords_value_of_trees(items: Seq<Yaml>, cs: Seq<Chord>)
    requires
        are_chord_trees(items, cs),
    ensures
        chords_value(items) == Ok::<Seq<Chord>, ChartError>(cs),
    decreases items.len(),
{
    if items.len() > 0 {
        let n = items.len() - 1;
        assert(are_chord_trees(items.drop_last(), cs.drop_last())) by {
            assert forall|i: int| 0 <= i < n implies #[trigger] is_chord_tree(items.drop_last()[i], cs.drop_last()[i]) by {
                assert(is_chord_tree(items[i], cs[i]));
            }
        }
        lemma_chords_value_of_trees(items.drop_last(), cs.drop_last());
        assert(is_chord_tree(items[n], cs[n]));
        lemma_chord_value_of_tree(items.last(), cs.last());
        assert(cs.drop_last().push(cs.last()) =~= cs);
    } else {
        assert(cs =~= Seq::<Chord>::empty());
    }
}

proof fn lemma_measure_value_of_tree(y: Yaml, cs: Seq<Chord>)
    requires
        is_measure_tree(y, cs),
    ensures
        measure_value(y) == Ok::<Seq<Chord>, ChartError>(cs),
{
    let es = y->Mapping_0@;
    assert(field_of(y, key_chord()) == Some(es[0].1));
    lemma_chords_value_of_trees(es[0].1->Sequence_0@, cs);
}

proof fn lemma_measures_value_of_trees(items: Seq<Yaml>, ms: Seq<Seq<Chord>>)
    requires
        are_measure_trees(items, ms),
    ensures
        measures_value(items) == Ok::<Seq<Seq<Chord>>, ChartError>(ms),
    decreases items.len(),
{
    if items.len() > 0 {
        let n = items.len() - 1;
        assert(are_measure_trees(items.drop_last(), ms.drop_last())) by {
            assert forall|i: int| 0 <= i < n implies #[trigger] is_measure_tree(items.drop_last()[i], ms.drop_last()[i]) by {
                assert(is_measure_tree(items[i], ms[i]));
            }
        }
        lemma_measures_value_of_trees(items.drop_last(), ms.drop_last());
        assert(is_measure_tree(items[n], ms[n]));
        lemma_measure_value_of_tree(items.last(), ms.last());
        assert(ms.drop_last().push(ms.last()) =~= ms);
    } else {
        assert(ms =~= Seq::<Seq<Chord>>::empty());
    }
}

/// Writing a chord with a positive degree as a document and decoding it gives
/// the same degree and quality back.
pub proof fn lemma_chord_round_trip(y: Yaml, c: Chord)
    requires
        is_chord_tree(y, c),
        c.degree >= 1,
    ensures
        chord_document(y) == Ok::<Chord, ChartError>(c),
{
    lemma_chord_value_of_tree(y, c);
}

/// Writing a measure whose degrees are all positive as a document and decoding
/// it gives the same chords back.
pub proof fn lemma_measure_round_trip(y: Yaml, cs: Seq<Chord>)
    requires
        is_measure_tree(y, cs),
        forall|i: int| 0 <= i < cs.len() ==> #[trigger] cs[i].degree >= 1,
    ensures
        measure_document(y) == Ok::<Seq<Chord>, ChartError>(cs),
{
    lemma_measure_value_of_tree(y, cs);
    lemma_no_invalid_degree(cs);
}

proof fn lemma_no_invalid_degree(cs: Seq<Chord>)
    requires
        forall|i: int| 0 <= i < cs.len() ==> #[trigger] cs[i].degree >= 1,
    ensures
        first_invalid_degree(cs) is None,
    decreases cs.len(),
{
    if cs.len() > 0 {
        assert(cs[0].degree >= 1);
        assert forall|i: int| 0 <= i < cs.drop_first().len() implies #[trigger] cs.drop_first()[i].degree >= 1 by {
            assert(cs[i + 1].degree >= 1);
        }
        lemma_no_invalid_degree(cs.drop_first());
    }
}

/// A chord document with a degree of zero or less is refused with
/// `InvalidDegree`, naming that degree.
pub proof fn lemma_chord_invalid_degree(y: Yaml, c: Chord)
    requires
        is_chord_tree(y, c),
        c.degree <= 0,
    ensures
        chord_document(y) == Err::<Chord, ChartError>(ChartError::InvalidDegree { degree: c.degree, measure: None }),
{
    lemma_chord_value_of_tree(y, c);
}

proof fn lemma_first_invalid_degree_at(cs: Seq<Chord>, i: int)
    requires
        0 <= i < cs.len(),
        cs[i].degree <= 0,
        forall|j: int| 0 <= j < i ==> #[trigger] cs[j].degree >= 1,
    ensures
        first_invalid_degree(cs) == Some(cs[i].degree),
    decreases i,
{
    if i > 0 {
        assert(cs[0].degree >= 1);
        assert forall|j: int| 0 <= j < i - 1 implies #[trigger] cs.drop_first()[j].degree >= 1 by {
            assert(cs[j + 1].degree >= 1);
        }
        lemma_first_invalid_degree_at(cs.drop_first(), i - 1);
    }
}

/// A measure document in which the chord at position `i` is the first with a
/// degree of zero or less is refused with `InvalidDegree`, naming that degree.
pub proof fn lemma_measure_invalid_degree(y: Yaml, cs: Seq<Chord>, i: int)
    requires
        is_measure_tree(y, cs),
        0 <= i < cs.len(),
        cs[i].degree <= 0,
        forall|j: int| 0 <= j < i ==> #[trigger] cs[j].degree >= 1,
    ensures
        measure_document(y) == Err::<Seq<Chord>, ChartError>(ChartError::InvalidDegree { degree: cs[i].degree, measure: None }),
{
    lemma_measure_value_of_tree(y, cs);
    lemma_first_invalid_degree_at(cs, i);
}

proof fn lemma_first_invalid_in_measures_at(ms: Seq<Seq<Chord>>, base: int, k: int, d: i32)
    requires
        0 <= k < ms.len(),
        first_invalid_degree(ms[k]) == Some(d),
        forall|j: int| 0 <= j < k ==> #[trigger] first_invalid_degree(ms[j]) is None,
    ensures
        first_invalid_in_measures(ms, base) == Some((d, base + k + 1)),
    decreases k,
{
    if k > 0 {
        assert(first_invalid_degree(ms[0]) is None);
        assert forall|j: int| 0 <= j < k - 1 implies #[trigger] first_invalid_degree(ms.drop_first()[j]) is None by {
            assert(first_invalid_degree(ms[j + 1]) is None);
        }
        lemma_first_invalid_in_measures_at(ms.drop_first(), base + 1, k - 1, d);
    }
}

/// A collection document whose measure at position `k` (0-based) is the first
/// to hold a degree of zero or less is refused with `InvalidDegree`, naming
/// the first such degree of that measure and the 1-based index `k + 1`.
pub proof fn lemma_collection_invalid_degree(y: Yaml, ms: Seq<Seq<Chord>>, k: int, i: int)
    requires
        is_collection_tree(y, ms),
        0 <= k < ms.len(),
        forall|j: int, l: int| 0 <= j < k && 0 <= l < ms[j].len() ==> #[trigger] ms[j][l].degree >= 1,
        0 <= i < ms[k].len(),
        ms[k][i].degree <= 0,
        forall|l: int| 0 <= l < i ==> #[trigger] ms[k][l].degree >= 1,
    ensures
        collection_document(y) == Err::<Seq<Seq<Chord>>, ChartError>(
            ChartError::InvalidDegree { degree: ms[k][i].degree, measure: Some((k + 1) as usize) },
        ),
{
    let es = y->Mapping_0@;
    assert(field_of(y, key_measures()) == Some(es[0].1));
    lemma_measures_value_of_trees(es[0].1->Sequence_0@, ms);
    lemma_first_invalid_degree_at(ms[k], i);
    assert forall|j: int| 0 <= j < k implies #[trigger] first_invalid_degree(ms[j]) is None by {
        assert forall|l: int| 0 <= l < ms[j].len() implies #[trigger] ms[j][l].degree >= 1 by {
            assert(ms[j][l].degree >= 1);
        }
        lemma_no_invalid_degree(ms[j]);
    }
    lemma_first_invalid_in_measures_at(ms, 0, k, ms[k][i].degree);
}

} // verus!
