use vstd::prelude::*;
use crate::chord::{Chord, ChordQuality, quality_of_label_or_major};
use crate::measure::Measure;

verus! {

/// Which side of a repeated section a repeat mark stands on.
#[derive(Debug, Clone, Copy, PartialEq, Eq, Structural)]
pub enum RepeatSign {
    Begin,
    End,
}

/// A chord as a line chart writes it: a degree and a free-text quality label.
#[derive(Debug, Clone)]
pub struct ChordData {
    pub degree: i32,
    pub quality: String,
}

/// One entry of a measure in a line chart.
#[derive(Debug, Clone)]
pub struct ChordDef {
    pub chord: ChordData,
}

/// One element of a line, in rendering order.
#[derive(Debug, Clone)]
pub enum LineElement {
    Measure { measure: Vec<ChordDef> },
    Repeat { repeat: RepeatSign },
    Spacer,
}

/// One horizontal staff line.
#[derive(Debug, Clone)]
pub struct Line {
    pub line: Vec<LineElement>,
}

/// The chord that a line-chart entry stands for (unknown labels read as major).
pub open spec fn chord_of_data(d: ChordData) -> Chord {
    Chord { degree: d.degree, quality: quality_of_label_or_major(d.quality@) }
}

/// The chords that the entries of a line-chart measure stand for.
pub open spec fn chords_of_defs(defs: Seq<ChordDef>) -> Seq<Chord> {
    defs.map_values(|d: ChordDef| chord_of_data(d.chord))
}

impl Chord {
    /// Resolves a line-chart entry leniently: an unknown label gives a major chord.
    pub fn from_data(data: &ChordData) -> (r: Chord)
        ensures
            r == chord_of_data(*data),
    {
        Chord { degree: data.degree, quality: ChordQuality::from_label_or_major(data.quality.as_str()) }
    }
}

impl From<ChordData> for Chord {
    fn from(data: ChordData) -> (r: Chord) {
        Chord::from_data(&data)
    }
}

impl vstd::std_specs::convert::FromSpecImpl<ChordData> for Chord {
    open spec fn obeys_from_spec() -> bool {
        true
    }

    open spec fn from_spec(v: ChordData) -> Chord {
        chord_of_data(v)
    }
}

impl Measure {
    /// The measure that the entries of a line-chart measure stand for.
    pub fn from_defs(defs: &Vec<ChordDef>) -> (r: Measure)
        ensures
            r@ == chords_of_defs(defs@),
    {
        let mut m = Measure::new();
        let mut i: usize = 0;
        while i < defs.len()
            invariant
                i <= defs@.len(),
                m@ == chords_of_defs(defs@.subrange(0, i as int)),
            decreases defs@.len() - i,
        {
            let c = Chord::from_data(&defs[i].chord);
            m.add_chord(c);
            i = i + 1;
            assert(defs@.subrange(0, i as int) =~= defs@.subrange(0, i - 1).push(defs@[i - 1]));
        }
        assert(defs@.subrange(0, i as int) =~= defs@);
        m
    }
}

impl Line {
    pub fn new() -> (r: Self)
        ensures
            r.line@.len() == 0,
    {
        Line { line: Vec::new() }
    }

    pub fn with_elements(elements: Vec<LineElement>) -> (r: Self)
        ensures
            r.line@ == elements@,
    {
        Line { line: elements }
    }

    pub fn add_element(&mut self, element: LineElement)
        ensures
            final(self).line@ == old(self).line@.push(element),
    {
        self.line.push(element);
    }
}

} // verus!
