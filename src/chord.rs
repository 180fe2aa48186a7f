use vstd::prelude::*;

verus! {

/// The colour of a chord.
#[derive(Debug, Clone, Copy, PartialEq, Eq, Structural)]
pub enum ChordQuality {
    Major,
    Minor,
    Sus2,
    Sus4,
    Aug,
    Dim,
}

/// A chord: a scale degree and a quality. A well-formed chord has a degree of
/// at least one (see `Chord::is_valid`).
#[derive(Debug, Clone, Copy, PartialEq, Eq, Structural)]
pub struct Chord {
    pub degree: i32,
    pub quality: ChordQuality,
}

impl Chord {
    pub open spec fn is_valid(self) -> bool {
        self.degree >= 1
    }
}

/// The label that names a quality in a chart document.
pub open spec fn quality_label(q: ChordQuality) -> Seq<char> {
    match q {
        ChordQuality::Major => seq!['m', 'a', 'j', 'o', 'r'],
        ChordQuality::Minor => seq!['m', 'i', 'n', 'o', 'r'],
        ChordQuality::Sus2 => seq!['s', 'u', 's', '2'],
        ChordQuality::Sus4 => seq!['s', 'u', 's', '4'],
        ChordQuality::Aug => seq!['a', 'u', 'g'],
        ChordQuality::Dim => seq!['d', 'i', 'm'],
    }
}

/// The quality that a label names, if it names one (exact, case-sensitive).
pub open spec fn quality_of_label(label: Seq<char>) -> Option<ChordQuality> {
    if label == quality_label(ChordQuality::Major) {
        Some(ChordQuality::Major)
    } else if label == quality_label(ChordQuality::Minor) {
        Some(ChordQuality::Minor)
    } else if label == quality_label(ChordQuality::Sus2) {
        Some(ChordQuality::Sus2)
    } else if label == quality_label(ChordQuality::Sus4) {
        Some(ChordQuality::Sus4)
    } else if label == quality_label(ChordQuality::Aug) {
        Some(ChordQuality::Aug)
    } else if label == quality_label(ChordQuality::Dim) {
        Some(ChordQuality::Dim)
    } else {
        None
    }
}

/// The lenient reading used by line charts: an unknown label is a major chord.
pub open spec fn quality_of_label_or_major(label: Seq<char>) -> ChordQuality {
    match quality_of_label(label) {
        Some(q) => q,
        None => ChordQuality::Major,
    }
}

/// Every quality is named by its label and by no other.
pub proof fn lemma_quality_label_round_trip(q: ChordQuality)
    ensures
        quality_of_label(quality_label(q)) == Some(q),
{
}

/// Compares a text with a string literal, character by character.
pub fn text_is(a: &str, b: &str) -> (r: bool)
    ensures
        r == (a@ == b@),
{
    let n = a.unicode_len();
    let m = b.unicode_len();
    if n != m {
        return false;
    }
    let mut i: usize = 0;
    while i < n
        invariant
            n == a@.len(),
            m == b@.len(),
            n == m,
            i <= n,
            forall|j: int| 0 <= j < i ==> a@[j] == b@[j],
        decreases n - i,
    {
        if a.get_char(i) != b.get_char(i) {
            return false;
        }
        i = i + 1;
    }
    assert(a@ =~= b@);
    true
}

impl ChordQuality {
    /// The label that names this quality in a chart document.
    pub fn label(&self) -> (r: &'static str)
        ensures
            r@ == quality_label(*self),
    {
        proof {
            reveal_strlit("major");
            reveal_strlit("minor");
            reveal_strlit("sus2");
            reveal_strlit("sus4");
            reveal_strlit("aug");
            reveal_strlit("dim");
        }
        let r = match self {
            ChordQuality::Major => "major",
            ChordQuality::Minor => "minor",
            ChordQuality::Sus2 => "sus2",
            ChordQuality::Sus4 => "sus4",
            ChordQuality::Aug => "aug",
            ChordQuality::Dim => "dim",
        };
        assert(r@ =~= quality_label(*self));
        r
    }

    /// The strict reading of a quality label: `None` unless the label is one of
    /// the six names.
    pub fn from_label(label: &str) -> (r: Option<ChordQuality>)
        ensures
            r == quality_of_label(label@),
    {
        proof {
            reveal_strlit("major");
            reveal_strlit("minor");
            reveal_strlit("sus2");
            reveal_strlit("sus4");
            reveal_strlit("aug");
            reveal_strlit("dim");
            assert("major"@ =~= quality_label(ChordQuality::Major));
            assert("minor"@ =~= quality_label(ChordQuality::Minor));
            assert("sus2"@ =~= quality_label(ChordQuality::Sus2));
            assert("sus4"@ =~= quality_label(ChordQuality::Sus4));
            assert("aug"@ =~= quality_label(ChordQuality::Aug));
            assert("dim"@ =~= quality_label(ChordQuality::Dim));
        }
        if text_is(label, "major") {
            Some(ChordQuality::Major)
        } else if text_is(label, "minor") {
            Some(ChordQuality::Minor)
        } else if text_is(label, "sus2") {
            Some(ChordQuality::Sus2)
        } else if text_is(label, "sus4") {
            Some(ChordQuality::Sus4)
        } else if text_is(label, "aug") {
            Some(ChordQuality::Aug)
        } else if text_is(label, "dim") {
            Some(ChordQuality::Dim)
        } else {
            None
        }
    }

    /// The lenient reading of a quality label: an unknown label is major.
    pub fn from_label_or_major(label: &str) -> (r: ChordQuality)
        ensures
            r == quality_of_label_or_major(label@),
    {
        match ChordQuality::from_label(label) {
            Some(q) => q,
            None => ChordQuality::Major,
        }
    }
}

} // verus!
