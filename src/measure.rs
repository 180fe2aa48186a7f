use vstd::prelude::*;
use crate::chord::Chord;

verus! {

/// One bar: an ordered group of chords (duplicates allowed, possibly empty).
#[derive(Debug, Clone)]
pub struct Measure {
    chords: Vec<Chord>,
}

/// An ordered sequence of measures.
#[derive(Debug, Clone)]
pub struct MeasureCollection {
    pub measures: Vec<Measure>,
}

impl View for Measure {
    type V = Seq<Chord>;

    closed spec fn view(&self) -> Seq<Chord> {
        self.chords@
    }
}

impl MeasureCollection {
    /// The chords of each measure, in order.
    pub open spec fn spec_chords(&self) -> Seq<Seq<Chord>> {
        self.measures@.map_values(|m: Measure| m@)
    }
}

impl Measure {
    pub fn new() -> (r: Self)
        ensures
            r@ == Seq::<Chord>::empty(),
    {
        Measure { chords: Vec::new() }
    }

    pub fn with_chords(chords: Vec<Chord>) -> (r: Self)
        ensures
            r@ == chords@,
    {
        Measure { chords }
    }

    pub fn add_chord(&mut self, chord: Chord)
        ensures
            final(self)@ == old(self)@.push(chord),
    {
        self.chords.push(chord);
    }

    pub fn get_chords(&self) -> (r: Vec<&Chord>)
        ensures
            r@.len() == self@.len(),
            forall|i: int| 0 <= i < r@.len() ==> *r@[i] == self@[i],
    {
        let mut r: Vec<&Chord> = Vec::new();
        let mut i: usize = 0;
        while i < self.chords.len()
            invariant
                i <= self.chords@.len(),
                r@.len() == i,
                forall|j: int| 0 <= j < i ==> *r@[j] == self.chords@[j],
            decreases self.chords@.len() - i,
        {
            r.push(&self.chords[i]);
            i = i + 1;
        }
        r
    }

    pub fn get_chords_mut(&mut self) -> (r: &mut Vec<Chord>)
        ensures
            r@ == old(self)@,
            final(self)@ == final(r)@,
    {
        &mut self.chords
    }

    pub fn len(&self) -> (r: usize)
        ensures
            r == self@.len(),
    {
        self.chords.len()
    }
}

impl MeasureCollection {
    pub fn new() -> (r: Self)
        ensures
            r.measures@.len() == 0,
    {
        MeasureCollection { measures: Vec::new() }
    }

    pub fn with_measures(measures: Vec<Measure>) -> (r: Self)
        ensures
            r.measures@ == measures@,
    {
        MeasureCollection { measures }
    }

    pub fn add_measure(&mut self, measure: Measure)
        ensures
            final(self).measures@ == old(self).measures@.push(measure),
    {
        self.measures.push(measure);
    }
}

} // verus!
