use vstd::prelude::*;
use crate::chord::{Chord, ChordQuality};
use crate::line::{Line, LineElement, RepeatSign, chord_of_data};
use crate::measure::Measure;
use crate::numeral::{decimal, decimal_string};
use crate::error::ChartError;

verus! {

pub const SVG_WIDTH: i32 = 800;
pub const SVG_HEIGHT: i32 = 400;
/// Horizontal distance between successive chords.
pub const CHORD_SPACING: i32 = 100;
pub const LINE_HEIGHT: i32 = 100;
pub const REPEAT_DOT_SPACING: i32 = 6;
pub const REPEAT_LINE_SPACING: i32 = 3;
pub const SPACER_DOT_RADIUS: i32 = 3;
pub const REPEAT_DOT_RADIUS: i32 = 2;

/// How a chord quality is written after its degree.
#[derive(Debug, Clone, Copy, PartialEq, Eq, Structural)]
pub enum NotationType {
    Regular,
    Compact,
}

/// One rendered element: each becomes one group of drawing primitives.
#[derive(Debug, Clone)]
pub enum Glyph {
    /// The white canvas background.
    Background,
    /// A chord label centred at `(x, y)`.
    Label { x: i32, y: i32, text: String },
    /// A repeat mark whose first bar stands at `x`, centred on `y`.
    Repeat { x: i32, y: i32, sign: RepeatSign },
    /// A spacer dot at `(x, y)`.
    Spacer { x: i32, y: i32 },
}

/// The suffix written after the degree for a quality in a notation.
pub open spec fn suffix(q: ChordQuality, n: NotationType) -> Seq<char> {
    match (q, n) {
        (ChordQuality::Major, _) => Seq::empty(),
        (ChordQuality::Minor, NotationType::Regular) => seq!['m'],
        (ChordQuality::Minor, NotationType::Compact) => seq!['-'],
        (ChordQuality::Sus2, _) => seq!['s', 'u', 's', '2'],
        (ChordQuality::Sus4, _) => seq!['s', 'u', 's', '4'],
        (ChordQuality::Aug, NotationType::Regular) => seq!['a', 'u', 'g'],
        (ChordQuality::Aug, NotationType::Compact) => seq!['+'],
        (ChordQuality::Dim, NotationType::Regular) => seq!['d', 'i', 'm'],
        (ChordQuality::Dim, NotationType::Compact) => seq!['\u{ba}'],
    }
}

/// The text of a chord's label: its degree, then its quality's suffix.
pub open spec fn label_text(c: Chord, n: NotationType) -> Seq<char> {
    decimal(c.degree as int) + suffix(c.quality, n)
}

/// `g` is a chord label with this position and text.
pub open spec fn is_label(g: Glyph, x: int, y: int, text: Seq<char>) -> bool {
    g matches Glyph::Label { x: gx, y: gy, text: t } && gx == x && gy == y && t@ == text
}

/// `after` is `before` followed by the labels of `chords`, the i-th at
/// `x + i * CHORD_SPACING`, all at height `y`.
pub open spec fn measure_drawn(
    before: Seq<Glyph>,
    after: Seq<Glyph>,
    chords: Seq<Chord>,
    x: int,
    y: int,
    n: NotationType,
) -> bool {
    &&& after.len() == before.len() + chords.len()
    &&& after.subrange(0, before.len() as int) == before
    &&& forall|i: int|
        0 <= i < chords.len() ==> #[trigger] is_label(
            after[before.len() + i],
            x + i * CHORD_SPACING,
            y,
            label_text(chords[i], n),
        )
}

/// How far the cursor moves past an element of a line.
pub open spec fn advance(e: LineElement) -> int {
    match e {
        LineElement::Measure { measure } => CHORD_SPACING * measure@.len(),
        LineElement::Repeat { .. } => CHORD_SPACING / 2,
        LineElement::Spacer => CHORD_SPACING / 2,
    }
}

/// How many glyphs an element of a line draws.
pub open spec fn glyph_count(e: LineElement) -> int {
    match e {
        LineElement::Measure { measure } => measure@.len() as int,
        _ => 1,
    }
}

/// The cursor offset of the k-th element: the advances of those before it.
pub open spec fn offset(elems: Seq<LineElement>, k: int) -> int
    decreases k,
{
    if k <= 0 {
        0
    } else {
        offset(elems, k - 1) + advance(elems[k - 1])
    }
}

/// The index of the first glyph of the k-th element.
pub open spec fn first_glyph(elems: Seq<LineElement>, k: int) -> int
    decreases k,
{
    if k <= 0 {
        0
    } else {
        first_glyph(elems, k - 1) + glyph_count(elems[k - 1])
    }
}

/// The glyphs `gs`, from index `base` on, draw element `e` at `(x, y)`.
pub open spec fn element_drawn(gs: Seq<Glyph>, base: int, e: LineElement, x: int, y: int, n: NotationType) -> bool {
    match e {
        LineElement::Measure { measure } => forall|j: int|
            0 <= j < measure@.len() ==> #[trigger] is_label(
                gs[base + j],
                x + j * CHORD_SPACING,
                y,
                label_text(chord_of_data(measure@[j].chord), n),
            ),
        LineElement::Repeat { repeat } => gs[base] == Glyph::Repeat { x: x as i32, y: y as i32, sign: repeat },
        LineElement::Spacer => gs[base] == Glyph::Spacer { x: x as i32, y: y as i32 },
    }
}

/// `after` is `before` followed by the elements of a line, walked left to
/// right from `x`: element k is drawn at `x + offset(elems, k)`.
pub open spec fn line_drawn(
    before: Seq<Glyph>,
    after: Seq<Glyph>,
    elems: Seq<LineElement>,
    x: int,
    y: int,
    n: NotationType,
) -> bool {
    &&& after.len() == before.len() + first_glyph(elems, elems.len() as int)
    &&& after.subrange(0, before.len() as int) == before
    &&& forall|k: int|
        0 <= k < elems.len() ==> #[trigger] element_drawn(
            after,
            before.len() + first_glyph(elems, k),
            elems[k],
            x + offset(elems, k),
            y,
            n,
        )
}

/// Layout is a single forward pass: where an element is drawn, and which
/// glyphs it gets, depends only on the elements before it, not on any that
/// follow.
pub proof fn lemma_placement_ignores_later_elements(a: Seq<LineElement>, b: Seq<LineElement>, k: int)
    requires
        0 <= k <= a.len(),
    ensures
        offset(a + b, k) == offset(a, k),
        first_glyph(a + b, k) == first_glyph(a, k),
    decreases k,
{
    if k > 0 {
        lemma_placement_ignores_later_elements(a, b, k - 1);
        assert((a + b)[k - 1] == a[k - 1]);
    }
}

proof fn lemma_offset_monotone(elems: Seq<LineElement>, j: int, k: int)
    requires
        0 <= j <= k <= elems.len(),
    ensures
        offset(elems, j) <= offset(elems, k),
    decreases k - j,
{
    if j < k {
        lemma_offset_monotone(elems, j, k - 1);
        assert(advance(elems[k - 1]) >= 0);
    }
}

proof fn lemma_first_glyph_monotone(elems: Seq<LineElement>, j: int, k: int)
    requires
        0 <= j <= k <= elems.len(),
    ensures
        first_glyph(elems, j) <= first_glyph(elems, k),
    decreases k - j,
{
    if j < k {
        lemma_first_glyph_monotone(elems, j, k - 1);
    }
}

/// Drawing more glyphs after an element keeps that element drawn.
proof fn lemma_element_drawn_kept(
    gs1: Seq<Glyph>,
    gs2: Seq<Glyph>,
    base: int,
    e: LineElement,
    x: int,
    y: int,
    n: NotationType,
)
    requires
        0 <= base,
        base + glyph_count(e) <= gs1.len() <= gs2.len(),
        gs2.subrange(0, gs1.len() as int) == gs1,
        element_drawn(gs1, base, e, x, y, n),
    ensures
        element_drawn(gs2, base, e, x, y, n),
{
    match e {
        LineElement::Measure { measure } => {
            assert forall|j: int| 0 <= j < measure@.len() implies #[trigger] is_label(
                gs2[base + j],
                x + j * CHORD_SPACING,
                y,
                label_text(chord_of_data(measure@[j].chord), n),
            ) by {
                assert(gs2.subrange(0, gs1.len() as int)[base + j] == gs2[base + j]);
                assert(is_label(gs1[base + j], x + j * CHORD_SPACING, y, label_text(chord_of_data(measure@[j].chord), n)));
            }
        },
        _ => {
            assert(gs2.subrange(0, gs1.len() as int)[base] == gs2[base]);
        },
    }
}

/// A drawing primitive, in canvas coordinates.
#[derive(Debug, Clone)]
pub enum Primitive {
    /// A white rectangle that fills the canvas.
    Backdrop,
    /// Text centred on `(x, y)`.
    Text { x: i64, y: i64, content: String },
    /// A vertical stroke from `(x, y1)` to `(x, y2)`.
    Bar { x: i64, y1: i64, y2: i64 },
    /// A filled dot of radius `r` centred on `(x, y)`.
    Dot { x: i64, y: i64, r: i64 },
}

/// The x of the dots of a repeat mark whose first bar is at `x`: right of the
/// bars for a begin mark, left of them for an end mark.
pub open spec fn repeat_dot_x(x: int, sign: RepeatSign) -> int {
    match sign {
        RepeatSign::Begin => x + REPEAT_LINE_SPACING + REPEAT_DOT_SPACING,
        RepeatSign::End => x - REPEAT_DOT_SPACING,
    }
}

/// The primitives that make up a glyph.
pub open spec fn glyph_primitives(g: Glyph) -> Seq<Primitive> {
    match g {
        Glyph::Background => seq![Primitive::Backdrop],
        Glyph::Label { x, y, text } => seq![Primitive::Text { x: x as i64, y: y as i64, content: text }],
        Glyph::Repeat { x, y, sign } => {
            let top = (y - LINE_HEIGHT / 3) as i64;
            let bottom = (y + LINE_HEIGHT / 3) as i64;
            let dx = repeat_dot_x(x as int, sign) as i64;
            seq![
                Primitive::Bar { x: x as i64, y1: top, y2: bottom },
                Primitive::Bar { x: (x + REPEAT_LINE_SPACING) as i64, y1: top, y2: bottom },
                Primitive::Dot { x: dx, y: (y - REPEAT_DOT_SPACING) as i64, r: REPEAT_DOT_RADIUS as i64 },
                Primitive::Dot { x: dx, y: (y + REPEAT_DOT_SPACING) as i64, r: REPEAT_DOT_RADIUS as i64 },
            ]
        },
        Glyph::Spacer { x, y } => seq![Primitive::Dot { x: x as i64, y: y as i64, r: SPACER_DOT_RADIUS as i64 }],
    }
}

impl Glyph {
    /// The primitives of this glyph, laid out around its position.
    pub fn primitives(&self) -> (r: Vec<Primitive>)
        ensures
            r@ == glyph_primitives(*self),
    {
        let r = match self {
            Glyph::Background => vec![Primitive::Backdrop],
            Glyph::Label { x, y, text } => vec![Primitive::Text { x: *x as i64, y: *y as i64, content: text.clone() }],
            Glyph::Repeat { x, y, sign } => {
                let x = *x as i64;
                let y = *y as i64;
                let top = y - (LINE_HEIGHT / 3) as i64;
                let bottom = y + (LINE_HEIGHT / 3) as i64;
                let dx = match sign {
                    RepeatSign::Begin => x + REPEAT_LINE_SPACING as i64 + REPEAT_DOT_SPACING as i64,
                    RepeatSign::End => x - REPEAT_DOT_SPACING as i64,
                };
                let second = x + REPEAT_LINE_SPACING as i64;
                let upper = y - REPEAT_DOT_SPACING as i64;
                let lower = y + REPEAT_DOT_SPACING as i64;
                let radius = REPEAT_DOT_RADIUS as i64;
                vec![
                    Primitive::Bar { x, y1: top, y2: bottom },
                    Primitive::Bar { x: second, y1: top, y2: bottom },
                    Primitive::Dot { x: dx, y: upper, r: radius },
                    Primitive::Dot { x: dx, y: lower, r: radius },
                ]
            },
            Glyph::Spacer { x, y } => vec![Primitive::Dot { x: *x as i64, y: *y as i64, r: SPACER_DOT_RADIUS as i64 }],
        };
        assert(r@ =~= glyph_primitives(*self));
        r
    }
}

#[verifier::external_type_specification]
#[verifier::external_body]
pub struct ExSvgDocument(svg::node::element::SVG);

#[verifier::external_type_specification]
#[verifier::external_body]
pub struct ExSvgGroup(svg::node::element::Group);

/// The primitives that an svg group holds, as its children in order.
pub uninterp spec fn group_items(g: svg::node::element::Group) -> Seq<Primitive>;

/// The groups that an svg document holds, as its children in order.
pub uninterp spec fn document_groups(d: svg::Document) -> Seq<Seq<Primitive>>;

/// The width and height that an svg document was created with.
pub uninterp spec fn document_size(d: svg::Document) -> (int, int);

/// The markup of an svg document of this size holding these groups.
pub uninterp spec fn svg_markup(width: int, height: int, groups: Seq<Seq<Primitive>>) -> Seq<char>;

/// Relies on svg::Document::new and `set`: an `<svg>` of this size and
/// viewBox, with no children.
#[verifier::external_body]
fn svg_document(width: i32, height: i32) -> (r: svg::Document)
    ensures
        document_groups(r) == Seq::<Seq<Primitive>>::empty(),
        document_size(r) == (width as int, height as int),
{
    svg::Document::new().set("width", width).set("height", height).set("viewBox", (0, 0, width, height))
}

/// Relies on svg's Group::new: a `<g>` with no children.
#[verifier::external_body]
fn svg_group() -> (r: svg::node::element::Group)
    ensures
        group_items(r) == Seq::<Primitive>::empty(),
{
    svg::node::element::Group::new()
}

/// Relies on svg's Rectangle and Group::add (which appends a child): adds a
/// white full-size `<rect>`.
#[verifier::external_body]
fn group_with_backdrop(g: svg::node::element::Group) -> (r: svg::node::element::Group)
    ensures
        group_items(r) == group_items(g).push(Primitive::Backdrop),
{
    g.add(svg::node::element::Rectangle::new().set("width", "100%").set("height", "100%").set("fill", "white"))
}

/// Relies on svg's Text and Group::add (which appends a child): adds a
/// `<text>` centred on `(x, y)`.
#[verifier::external_body]
fn group_with_text(g: svg::node::element::Group, x: i64, y: i64, content: &String) -> (r: svg::node::element::Group)
    ensures
        group_items(r) == group_items(g).push(Primitive::Text { x, y, content: *content }),
{
    g.add(
        svg::node::element::Text::new(content.as_str())
            .set("x", x)
            .set("y", y)
            .set("text-anchor", "middle")
            .set("dominant-baseline", "middle")
            .set("font-family", "Arial")
            .set("font-size", 20),
    )
}

/// Relies on svg's Line and Group::add (which appends a child): adds a black
/// vertical `<line>`.
#[verifier::external_body]
fn group_with_bar(g: svg::node::element::Group, x: i64, y1: i64, y2: i64) -> (r: svg::node::element::Group)
    ensures
        group_items(r) == group_items(g).push(Primitive::Bar { x, y1, y2 }),
{
    g.add(
        svg::node::element::Line::new()
            .set("x1", x)
            .set("y1", y1)
            .set("x2", x)
            .set("y2", y2)
            .set("stroke", "black")
            .set("stroke-width", 2),
    )
}

/// Relies on svg's Circle and Group::add (which appends a child): adds a
/// filled black `<circle>`.
#[verifier::external_body]
fn group_with_dot(g: svg::node::element::Group, x: i64, y: i64, r: i64) -> (out: svg::node::element::Group)
    ensures
        group_items(out) == group_items(g).push(Primitive::Dot { x, y, r }),
{
    g.add(svg::node::element::Circle::new().set("cx", x).set("cy", y).set("r", r).set("fill", "black"))
}

/// Relies on svg's Document::add, which appends a child: adds a group.
#[verifier::external_body]
fn document_with_group(d: svg::Document, g: svg::node::element::Group) -> (r: svg::Document)
    ensures
        document_groups(r) == document_groups(d).push(group_items(g)),
        document_size(r) == document_size(d),
{
    d.add(g)
}

/// Relies on the `Display` of svg's Document (attributes sorted, children in
/// order): the markup depends on the document's size and groups alone.
#[verifier::external_body]
fn document_markup(d: &svg::Document) -> (r: String)
    ensures
        r@ == svg_markup(document_size(*d).0, document_size(*d).1, document_groups(*d)),
{
    d.to_string()
}

/// Adds the svg node of one primitive to a group.
fn group_with(g: svg::node::element::Group, p: &Primitive) -> (r: svg::node::element::Group)
    ensures
        group_items(r) == group_items(g).push(*p),
{
    match p {
        Primitive::Backdrop => group_with_backdrop(g),
        Primitive::Text { x, y, content } => group_with_text(g, *x, *y, content),
        Primitive::Bar { x, y1, y2 } => group_with_bar(g, *x, *y1, *y2),
        Primitive::Dot { x, y, r } => group_with_dot(g, *x, *y, *r),
    }
}

/// The primitive groups of a list of glyphs, one group per glyph.
pub open spec fn glyph_groups(gs: Seq<Glyph>) -> Seq<Seq<Primitive>> {
    gs.map_values(|g: Glyph| glyph_primitives(g))
}

/// Lays out chords, measures and lines as glyphs on a fixed-size canvas.
pub struct ChordRenderer {
    notation_type: NotationType,
    glyphs: Vec<Glyph>,
}

impl ChordRenderer {
    /// The glyphs drawn so far, in drawing order.
    pub closed spec fn spec_glyphs(&self) -> Seq<Glyph> {
        self.glyphs@
    }

    pub closed spec fn notation(&self) -> NotationType {
        self.notation_type
    }

    /// An empty canvas in regular notation; `to_svg` writes it as an
    /// `SVG_WIDTH` by `SVG_HEIGHT` document.
    pub fn new() -> (r: Self)
        ensures
            r.spec_glyphs().len() == 0,
            r.notation() == NotationType::Regular,
    {
        ChordRenderer { notation_type: NotationType::Regular, glyphs: Vec::new() }
    }

    /// An empty canvas in the given notation.
    pub fn with_notation(notation_type: NotationType) -> (r: Self)
        ensures
            r.spec_glyphs().len() == 0,
            r.notation() == notation_type,
    {
        ChordRenderer { notation_type, glyphs: Vec::new() }
    }

    /// The suffix of a quality in this renderer's notation.
    pub fn quality_to_string(&self, quality: &ChordQuality) -> (r: String)
        ensures
            r@ == suffix(*quality, self.notation()),
    {
        proof {
            reveal_strlit("");
            reveal_strlit("m");
            reveal_strlit("-");
            reveal_strlit("sus2");
            reveal_strlit("sus4");
            reveal_strlit("aug");
            reveal_strlit("+");
            reveal_strlit("dim");
            reveal_strlit("\u{ba}");
        }
        let text = match (quality, self.notation_type) {
            (ChordQuality::Major, _) => "",
            (ChordQuality::Minor, NotationType::Regular) => "m",
            (ChordQuality::Minor, NotationType::Compact) => "-",
            (ChordQuality::Sus2, _) => "sus2",
            (ChordQuality::Sus4, _) => "sus4",
            (ChordQuality::Aug, NotationType::Regular) => "aug",
            (ChordQuality::Aug, NotationType::Compact) => "+",
            (ChordQuality::Dim, NotationType::Regular) => "dim",
            (ChordQuality::Dim, NotationType::Compact) => "\u{ba}",
        };
        assert(text@ =~= suffix(*quality, self.notation()));
        String::from_str(text)
    }

    /// The label of a chord: its degree in decimal, then its suffix.
    pub fn chord_label(&self, chord: &Chord) -> (r: String)
        ensures
            r@ == label_text(*chord, self.notation()),
    {
        let mut text = decimal_string(chord.degree as i64);
        let suffix = self.quality_to_string(&chord.quality);
        text.append(suffix.as_str());
        text
    }

    /// Draws a chord's label centred at `(x, y)`.
    pub fn render_chord(&mut self, chord: &Chord, x: i32, y: i32) -> (r: &mut Self)
        ensures
            r.notation() == old(self).notation(),
            r.spec_glyphs().len() == old(self).spec_glyphs().len() + 1,
            r.spec_glyphs().subrange(0, old(self).spec_glyphs().len() as int) == old(self).spec_glyphs(),
            is_label(r.spec_glyphs().last(), x as int, y as int, label_text(*chord, old(self).notation())),
            *final(self) == *final(r),
    {
        let text = self.chord_label(chord);
        self.glyphs.push(Glyph::Label { x, y, text });
        assert(self.glyphs@.subrange(0, old(self).glyphs@.len() as int) =~= old(self).glyphs@);
        self
    }

    /// Draws the chords of a measure left to right from `x`, one
    /// `CHORD_SPACING` apart.
    pub fn render_measure(&mut self, measure: &Measure, x: i32, y: i32) -> (r: &mut Self)
        requires
            x + CHORD_SPACING * measure@.len() <= i32::MAX,
        ensures
            r.notation() == old(self).notation(),
            measure_drawn(old(self).spec_glyphs(), r.spec_glyphs(), measure@, x as int, y as int, old(self).notation()),
            *final(self) == *final(r),
    {
        let chords = measure.get_chords();
        let mut current_x = x;
        let mut i: usize = 0;
        assert(self.spec_glyphs().subrange(0, self.spec_glyphs().len() as int) =~= self.spec_glyphs());
        while i < chords.len()
            invariant
                i <= chords@.len(),
                chords@.len() == measure@.len(),
                forall|j: int| 0 <= j < chords@.len() ==> *chords@[j] == measure@[j],
                x + CHORD_SPACING * measure@.len() <= i32::MAX,
                current_x == x + CHORD_SPACING * i,
                self.notation() == old(self).notation(),
                measure_drawn(old(self).spec_glyphs(), self.spec_glyphs(), measure@.take(i as int), x as int, y as int, old(self).notation()),
            decreases chords@.len() - i,
        {
            let ghost before = self.spec_glyphs();
            self.render_chord(chords[i], current_x, y);
            proof {
                let old_len = old(self).spec_glyphs().len();
                let cs = measure@.take(i + 1);
                assert(self.spec_glyphs().subrange(0, old_len as int) =~= old(self).spec_glyphs()) by {
                    assert(self.spec_glyphs().subrange(0, before.len() as int) == before);
                    assert(before.subrange(0, old_len as int) == old(self).spec_glyphs());
                }
                assert forall|j: int| 0 <= j < cs.len() implies #[trigger] is_label(
                    self.spec_glyphs()[old_len + j],
                    x + j * CHORD_SPACING,
                    y as int,
                    label_text(cs[j], old(self).notation()),
                ) by {
                    if j < i {
                        assert(measure@.take(i as int)[j] == cs[j]);
                        assert(self.spec_glyphs()[old_len + j] == before[old_len + j]);
                        assert(is_label(before[old_len + j], x + j * CHORD_SPACING, y as int, label_text(measure@.take(i as int)[j], old(self).notation())));
                    }
                }
            }
            current_x = current_x + CHORD_SPACING;
            i = i + 1;
        }
        assert(measure@.take(i as int) =~= measure@);
        self
    }

    /// Draws the elements of a line left to right from `x`: a measure moves
    /// the cursor by `CHORD_SPACING` per chord, a repeat mark or a spacer by
    /// half of it.
    pub fn render_line(&mut self, line: &Line, x: i32, y: i32) -> (r: &mut Self)
        requires
            x + offset(line.line@, line.line@.len() as int) <= i32::MAX,
        ensures
            r.notation() == old(self).notation(),
            line_drawn(old(self).spec_glyphs(), r.spec_glyphs(), line.line@, x as int, y as int, old(self).notation()),
            *final(self) == *final(r),
    {
        let ghost elems = line.line@;
        let ghost n = old(self).notation();
        let ghost start = old(self).spec_glyphs();
        let mut current_x = x;
        let mut k: usize = 0;
        assert(self.spec_glyphs().subrange(0, start.len() as int) =~= start);
        while k < line.line.len()
            invariant
                elems == line.line@,
                n == old(self).notation(),
                start == old(self).spec_glyphs(),
                k <= elems.len(),
                x + offset(elems, elems.len() as int) <= i32::MAX,
                current_x == x + offset(elems, k as int),
                self.notation() == n,
                self.spec_glyphs().len() == start.len() + first_glyph(elems, k as int),
                self.spec_glyphs().subrange(0, start.len() as int) == start,
                forall|j: int|
                    0 <= j < k ==> #[trigger] element_drawn(
                        self.spec_glyphs(),
                        start.len() + first_glyph(elems, j),
                        elems[j],
                        x + offset(elems, j),
                        y as int,
                        n,
                    ),
            decreases elems.len() - k,
        {
            let ghost before = self.spec_glyphs();
            proof {
                lemma_offset_monotone(elems, k + 1, elems.len() as int);
                lemma_offset_monotone(elems, 0, k as int);
                lemma_first_glyph_monotone(elems, 0, k as int);
            }
            match &line.line[k] {
                LineElement::Measure { measure } => {
                    let m = Measure::from_defs(measure);
                    self.render_measure(&m, current_x, y);
                    let count = m.len();
                    assert(offset(elems, k + 1) == offset(elems, k as int) + CHORD_SPACING * count);
                    let next: i64 = current_x as i64 + CHORD_SPACING as i64 * count as i64;
                    current_x = next as i32;
                    proof {
                        assert forall|j: int| 0 <= j < measure@.len() implies #[trigger] is_label(
                            self.spec_glyphs()[before.len() + j],
                            x + offset(elems, k as int) + j * CHORD_SPACING,
                            y as int,
                            label_text(chord_of_data(measure@[j].chord), n),
                        ) by {
                            assert(is_label(
                                self.spec_glyphs()[before.len() + j],
                                x + offset(elems, k as int) + j * CHORD_SPACING,
                                y as int,
                                label_text(m@[j], n),
                            ));
                        }
                    }
                },
                LineElement::Repeat { repeat } => {
                    self.render_repeat(repeat, current_x, y);
                    current_x = current_x + CHORD_SPACING / 2;
                },
                LineElement::Spacer => {
                    self.render_spacer(current_x, y);
                    current_x = current_x + CHORD_SPACING / 2;
                },
            }
            proof {
                let after = self.spec_glyphs();
                assert(after.subrange(0, before.len() as int) =~= before);
                assert(element_drawn(after, start.len() + first_glyph(elems, k as int), elems[k as int], x + offset(elems, k as int), y as int, n));
                assert(after.subrange(0, start.len() as int) =~= start) by {
                    assert(before.subrange(0, start.len() as int) == start);
                }
                assert forall|j: int| 0 <= j < k + 1 implies #[trigger] element_drawn(
                    after,
                    start.len() + first_glyph(elems, j),
                    elems[j],
                    x + offset(elems, j),
                    y as int,
                    n,
                ) by {
                    if j < k {
                        lemma_first_glyph_monotone(elems, j + 1, k as int);
                        lemma_first_glyph_monotone(elems, 0, j);
                        lemma_element_drawn_kept(before, after, start.len() + first_glyph(elems, j), elems[j], x + offset(elems, j), y as int, n);
                    }
                }
            }
            k = k + 1;
        }
        self
    }

    /// Draws a repeat mark: two bars, with two dots on the inside of the
    /// repeated section.
    pub fn render_repeat(&mut self, repeat_type: &RepeatSign, x: i32, y: i32) -> (r: &mut Self)
        ensures
            r.spec_glyphs() == old(self).spec_glyphs().push(Glyph::Repeat { x, y, sign: *repeat_type }),
            r.notation() == old(self).notation(),
            *final(self) == *final(r),
    {
        self.glyphs.push(Glyph::Repeat { x, y, sign: *repeat_type });
        self
    }

    /// Draws the white background.
    pub fn init_background(&mut self) -> (r: &mut Self)
        ensures
            r.spec_glyphs() == old(self).spec_glyphs().push(Glyph::Background),
            r.notation() == old(self).notation(),
            *final(self) == *final(r),
    {
        self.glyphs.push(Glyph::Background);
        self
    }

    /// The canvas as SVG markup: an `SVG_WIDTH` by `SVG_HEIGHT` document with
    /// one group per glyph, in drawing order.
    pub fn to_svg(&self) -> (r: String)
        ensures
            r@ == svg_markup(SVG_WIDTH as int, SVG_HEIGHT as int, glyph_groups(self.spec_glyphs())),
    {
        let mut doc = svg_document(SVG_WIDTH, SVG_HEIGHT);
        let mut i: usize = 0;
        while i < self.glyphs.len()
            invariant
                i <= self.glyphs@.len(),
                document_size(doc) == (SVG_WIDTH as int, SVG_HEIGHT as int),
                document_groups(doc) == glyph_groups(self.glyphs@.take(i as int)),
            decreases self.glyphs@.len() - i,
        {
            let prims = self.glyphs[i].primitives();
            let mut g = svg_group();
            let mut j: usize = 0;
            while j < prims.len()
                invariant
                    j <= prims@.len(),
                    group_items(g) == prims@.take(j as int),
                decreases prims@.len() - j,
            {
                g = group_with(g, &prims[j]);
                j = j + 1;
                assert(prims@.take(j as int) =~= prims@.take(j - 1).push(prims@[j - 1]));
            }
            assert(prims@.take(j as int) =~= prims@);
            doc = document_with_group(doc, g);
            i = i + 1;
            assert(glyph_groups(self.glyphs@.take(i as int)) =~= glyph_groups(self.glyphs@.take(i - 1)).push(
                glyph_primitives(self.glyphs@[i - 1]),
            ));
        }
        assert(self.glyphs@.take(i as int) =~= self.glyphs@);
        document_markup(&doc)
    }

    /// The outcome of writing the markup to `path`: a failed write is a
    /// `SaveError`, never a success.
    pub fn saved(path: &str, written: Result<(), String>) -> (r: Result<(), ChartError>)
        ensures
            match written {
                Ok(()) => r is Ok,
                Err(reason) => r matches Err(ChartError::SaveError { path: p, reason: q }) && p@ == path@ && q == reason,
            },
    {
        match written {
            Ok(()) => Ok(()),
            Err(reason) => Err(ChartError::SaveError { path: String::from_str(path), reason }),
        }
    }

    /// The glyphs drawn so far.
    pub fn glyphs(&self) -> (r: &Vec<Glyph>)
        ensures
            r@ == self.spec_glyphs(),
    {
        &self.glyphs
    }

    /// Draws a spacer dot at `(x, y)`.
    pub fn render_spacer(&mut self, x: i32, y: i32) -> (r: &mut Self)
        ensures
            r.spec_glyphs() == old(self).spec_glyphs().push(Glyph::Spacer { x, y }),
            r.notation() == old(self).notation(),
            *final(self) == *final(r),
    {
        self.glyphs.push(Glyph::Spacer { x, y });
        self
    }
}

} // verus!
