use crate::geom::COORD_LIMIT;
use crate::prim::{PathSegment, PathSegmentView};
use vstd::prelude::*;

verus! {

/// Whether one path operation's coordinates all lie within `b`.
pub open spec fn seg_within(s: PathSegmentView, b: int) -> bool {
    match s {
        PathSegmentView::M(x, y) => -b <= x <= b && -b <= y <= b,
        PathSegmentView::L(x, y) => -b <= x <= b && -b <= y <= b,
        PathSegmentView::Q(x1, y1, x, y) => {
            &&& -b <= x1 <= b
            &&& -b <= y1 <= b
            &&& -b <= x <= b
            &&& -b <= y <= b
        },
        PathSegmentView::C(x1, y1, x2, y2, x, y) => {
            &&& -b <= x1 <= b
            &&& -b <= y1 <= b
            &&& -b <= x2 <= b
            &&& -b <= y2 <= b
            &&& -b <= x <= b
            &&& -b <= y <= b
        },
        PathSegmentView::Z => true,
    }
}

/// Whether every operation of an outline stays within `b`.
pub open spec fn outline_within(s: Seq<PathSegmentView>, b: int) -> bool {
    forall|i: int| 0 <= i < s.len() ==> seg_within(#[trigger] s[i], b)
}

/// Whether an outline is acceptable input data.
pub open spec fn outline_ok(s: Seq<PathSegmentView>) -> bool {
    outline_within(s, COORD_LIMIT as int)
}

/// The static outline table of the music symbols, one outline per symbol
/// identity.  The outlines are supplied by the host as read-only data, in
/// the inverted glyph coordinate convention.
#[derive(Clone, Debug, PartialEq, Eq)]
pub struct GlyphStore {
    pub head_black: Vec<PathSegment>,
    pub head_white: Vec<PathSegment>,
    pub head_whole: Vec<PathSegment>,
    pub dot: Vec<PathSegment>,
    pub pause_whole: Vec<PathSegment>,
    pub pause_half: Vec<PathSegment>,
    pub pause_quarter: Vec<PathSegment>,
    pub pause_eighth: Vec<PathSegment>,
    pub pause_sixteenth: Vec<PathSegment>,
    pub pause_thirtysecond: Vec<PathSegment>,
    pub flag_eighth_up: Vec<PathSegment>,
    pub flag_sixteenth_up: Vec<PathSegment>,
    pub flag_eighth_down: Vec<PathSegment>,
    pub flag_sixteenth_down: Vec<PathSegment>,
    pub clef_g: Vec<PathSegment>,
    pub clef_f: Vec<PathSegment>,
    pub clef_c: Vec<PathSegment>,
    pub accidental_sharp: Vec<PathSegment>,
    pub accidental_flat: Vec<PathSegment>,
    pub accidental_natural: Vec<PathSegment>,
    pub accidental_doublesharp: Vec<PathSegment>,
    pub accidental_doubleflat: Vec<PathSegment>,
    pub time_common: Vec<PathSegment>,
    pub time_cut: Vec<PathSegment>,
    pub number_one: Vec<PathSegment>,
    pub number_two: Vec<PathSegment>,
    pub number_three: Vec<PathSegment>,
    pub number_four: Vec<PathSegment>,
    pub number_six: Vec<PathSegment>,
    pub number_eight: Vec<PathSegment>,
    pub number_nine: Vec<PathSegment>,
    pub tpl_circle: Vec<PathSegment>,
}

/// The mathematical value of the music symbol table.
pub struct GlyphStoreView {
    pub head_black: Seq<PathSegmentView>,
    pub head_white: Seq<PathSegmentView>,
    pub head_whole: Seq<PathSegmentView>,
    pub dot: Seq<PathSegmentView>,
    pub pause_whole: Seq<PathSegmentView>,
    pub pause_half: Seq<PathSegmentView>,
    pub pause_quarter: Seq<PathSegmentView>,
    pub pause_eighth: Seq<PathSegmentView>,
    pub pause_sixteenth: Seq<PathSegmentView>,
    pub pause_thirtysecond: Seq<PathSegmentView>,
    pub flag_eighth_up: Seq<PathSegmentView>,
    pub flag_sixteenth_up: Seq<PathSegmentView>,
    pub flag_eighth_down: Seq<PathSegmentView>,
    pub flag_sixteenth_down: Seq<PathSegmentView>,
    pub clef_g: Seq<PathSegmentView>,
    pub clef_f: Seq<PathSegmentView>,
    pub clef_c: Seq<PathSegmentView>,
    pub accidental_sharp: Seq<PathSegmentView>,
    pub accidental_flat: Seq<PathSegmentView>,
    pub accidental_natural: Seq<PathSegmentView>,
    pub accidental_doublesharp: Seq<PathSegmentView>,
    pub accidental_doubleflat: Seq<PathSegmentView>,
    pub time_common: Seq<PathSegmentView>,
    pub time_cut: Seq<PathSegmentView>,
    pub number_one: Seq<PathSegmentView>,
    pub number_two: Seq<PathSegmentView>,
    pub number_three: Seq<PathSegmentView>,
    pub number_four: Seq<PathSegmentView>,
    pub number_six: Seq<PathSegmentView>,
    pub number_eight: Seq<PathSegmentView>,
    pub number_nine: Seq<PathSegmentView>,
    pub tpl_circle: Seq<PathSegmentView>,
}

impl View for GlyphStore {
    type V = GlyphStoreView;

    open spec fn view(&self) -> GlyphStoreView {
        GlyphStoreView {
            head_black: self.head_black.deep_view(),
            head_white: self.head_white.deep_view(),
            head_whole: self.head_whole.deep_view(),
            dot: self.dot.deep_view(),
            pause_whole: self.pause_whole.deep_view(),
            pause_half: self.pause_half.deep_view(),
            pause_quarter: self.pause_quarter.deep_view(),
            pause_eighth: self.pause_eighth.deep_view(),
            pause_sixteenth: self.pause_sixteenth.deep_view(),
            pause_thirtysecond: self.pause_thirtysecond.deep_view(),
            flag_eighth_up: self.flag_eighth_up.deep_view(),
            flag_sixteenth_up: self.flag_sixteenth_up.deep_view(),
            flag_eighth_down: self.flag_eighth_down.deep_view(),
            flag_sixteenth_down: self.flag_sixteenth_down.deep_view(),
            clef_g: self.clef_g.deep_view(),
            clef_f: self.clef_f.deep_view(),
            clef_c: self.clef_c.deep_view(),
            accidental_sharp: self.accidental_sharp.deep_view(),
            accidental_flat: self.accidental_flat.deep_view(),
            accidental_natural: self.accidental_natural.deep_view(),
            accidental_doublesharp: self.accidental_doublesharp.deep_view(),
            accidental_doubleflat: self.accidental_doubleflat.deep_view(),
            time_common: self.time_common.deep_view(),
            time_cut: self.time_cut.deep_view(),
            number_one: self.number_one.deep_view(),
            number_two: self.number_two.deep_view(),
            number_three: self.number_three.deep_view(),
            number_four: self.number_four.deep_view(),
            number_six: self.number_six.deep_view(),
            number_eight: self.number_eight.deep_view(),
            number_nine: self.number_nine.deep_view(),
            tpl_circle: self.tpl_circle.deep_view(),
        }
    }
}

impl DeepView for GlyphStore {
    type V = GlyphStoreView;

    open spec fn deep_view(&self) -> GlyphStoreView {
        self.view()
    }
}

impl GlyphStoreView {
    /// Every outline of the table within the coordinate bound.
    pub open spec fn wf(self) -> bool {
        &&& outline_ok(self.head_black)
        &&& outline_ok(self.head_white)
        &&& outline_ok(self.head_whole)
        &&& outline_ok(self.dot)
        &&& outline_ok(self.pause_whole)
        &&& outline_ok(self.pause_half)
        &&& outline_ok(self.pause_quarter)
        &&& outline_ok(self.pause_eighth)
        &&& outline_ok(self.pause_sixteenth)
        &&& outline_ok(self.pause_thirtysecond)
        &&& outline_ok(self.flag_eighth_up)
        &&& outline_ok(self.flag_sixteenth_up)
        &&& outline_ok(self.flag_eighth_down)
        &&& outline_ok(self.flag_sixteenth_down)
        &&& outline_ok(self.clef_g)
        &&& outline_ok(self.clef_f)
        &&& outline_ok(self.clef_c)
        &&& outline_ok(self.accidental_sharp)
        &&& outline_ok(self.accidental_flat)
        &&& outline_ok(self.accidental_natural)
        &&& outline_ok(self.accidental_doublesharp)
        &&& outline_ok(self.accidental_doubleflat)
        &&& outline_ok(self.time_common)
        &&& outline_ok(self.time_cut)
        &&& outline_ok(self.number_one)
        &&& outline_ok(self.number_two)
        &&& outline_ok(self.number_three)
        &&& outline_ok(self.number_four)
        &&& outline_ok(self.number_six)
        &&& outline_ok(self.number_eight)
        &&& outline_ok(self.number_nine)
        &&& outline_ok(self.tpl_circle)
    }
}

impl GlyphStore {
    /// A table whose every outline is empty; useful as a placeholder.
    pub fn empty() -> (r: GlyphStore)
        ensures
            r@.wf(),
            r@.head_black.len() == 0,
            r@.head_white.len() == 0,
            r@.head_whole.len() == 0,
            r@.dot.len() == 0,
            r@.pause_whole.len() == 0,
            r@.pause_half.len() == 0,
            r@.pause_quarter.len() == 0,
            r@.pause_eighth.len() == 0,
            r@.pause_sixteenth.len() == 0,
            r@.pause_thirtysecond.len() == 0,
            r@.flag_eighth_up.len() == 0,
            r@.flag_sixteenth_up.len() == 0,
            r@.flag_eighth_down.len() == 0,
            r@.flag_sixteenth_down.len() == 0,
            r@.clef_g.len() == 0,
            r@.clef_f.len() == 0,
            r@.clef_c.len() == 0,
            r@.accidental_sharp.len() == 0,
            r@.accidental_flat.len() == 0,
            r@.accidental_natural.len() == 0,
            r@.accidental_doublesharp.len() == 0,
            r@.accidental_doubleflat.len() == 0,
            r@.time_common.len() == 0,
            r@.time_cut.len() == 0,
            r@.number_one.len() == 0,
            r@.number_two.len() == 0,
            r@.number_three.len() == 0,
            r@.number_four.len() == 0,
            r@.number_six.len() == 0,
            r@.number_eight.len() == 0,
            r@.number_nine.len() == 0,
            r@.tpl_circle.len() == 0,
    {
        GlyphStore {
            head_black: Vec::new(),
            head_white: Vec::new(),
            head_whole: Vec::new(),
            dot: Vec::new(),
            pause_whole: Vec::new(),
            pause_half: Vec::new(),
            pause_quarter: Vec::new(),
            pause_eighth: Vec::new(),
            pause_sixteenth: Vec::new(),
            pause_thirtysecond: Vec::new(),
            flag_eighth_up: Vec::new(),
            flag_sixteenth_up: Vec::new(),
            flag_eighth_down: Vec::new(),
            flag_sixteenth_down: Vec::new(),
            clef_g: Vec::new(),
            clef_f: Vec::new(),
            clef_c: Vec::new(),
            accidental_sharp: Vec::new(),
            accidental_flat: Vec::new(),
            accidental_natural: Vec::new(),
            accidental_doublesharp: Vec::new(),
            accidental_doubleflat: Vec::new(),
            time_common: Vec::new(),
            time_cut: Vec::new(),
            number_one: Vec::new(),
            number_two: Vec::new(),
            number_three: Vec::new(),
            number_four: Vec::new(),
            number_six: Vec::new(),
            number_eight: Vec::new(),
            number_nine: Vec::new(),
            tpl_circle: Vec::new(),
        }
    }
}

/// One character glyph of a text font.
#[derive(Clone, Debug, PartialEq, Eq)]
pub struct FontGlyph {
    /// The character this glyph draws.
    pub ch: char,
    /// Its outline, in glyph coordinates.
    pub outline: Vec<PathSegment>,
}

/// The mathematical value of a font glyph.
pub struct FontGlyphView {
    pub ch: char,
    pub outline: Seq<PathSegmentView>,
}

impl View for FontGlyph {
    type V = FontGlyphView;

    open spec fn view(&self) -> FontGlyphView {
        FontGlyphView { ch: self.ch, outline: self.outline.deep_view() }
    }
}

impl DeepView for FontGlyph {
    type V = FontGlyphView;

    open spec fn deep_view(&self) -> FontGlyphView {
        self.view()
    }
}

/// A text font: its glyph height and its character glyphs, addressed by
/// character.  Supplied by the host as read-only data.
#[derive(Clone, Debug, PartialEq, Eq)]
pub struct Font {
    /// The font's glyph height in glyph coordinates.
    pub glyph_height: i64,
    /// The character glyphs.
    pub entries: Vec<FontGlyph>,
}

/// The mathematical value of a font.
pub struct FontView {
    pub glyph_height: int,
    pub entries: Seq<FontGlyphView>,
}

impl View for Font {
    type V = FontView;

    open spec fn view(&self) -> FontView {
        FontView { glyph_height: self.glyph_height as int, entries: self.entries.deep_view() }
    }
}

impl DeepView for Font {
    type V = FontView;

    open spec fn deep_view(&self) -> FontView {
        self.view()
    }
}

/// The outline a font hands out for a character: the first entry with that
/// character, or an empty outline where the font lacks it.
pub open spec fn font_path(entries: Seq<FontGlyphView>, c: char) -> Seq<PathSegmentView>
    decreases entries.len(),
{
    if entries.len() == 0 {
        Seq::empty()
    } else if entries[0].ch == c {
        entries[0].outline
    } else {
        font_path(entries.drop_first(), c)
    }
}

/// When the first `i` entries miss `c`, the lookup result is settled by
/// the rest.
proof fn lemma_font_path_skip(entries: Seq<FontGlyphView>, c: char, i: int)
    requires
        0 <= i <= entries.len(),
        forall|j: int| 0 <= j < i ==> (#[trigger] entries[j]).ch != c,
    ensures
        font_path(entries, c) == font_path(entries.skip(i), c),
    decreases i,
{
    if i > 0 {
        assert(entries.len() > 0);
        lemma_font_path_skip(entries.drop_first(), c, i - 1);
        assert(entries.drop_first().skip(i - 1) =~= entries.skip(i));
    } else {
        assert(entries.skip(0) =~= entries);
    }
}

/// A well-formed font only hands out outlines within the coordinate
/// bound.
pub proof fn lemma_font_path_ok(entries: Seq<FontGlyphView>, c: char)
    requires
        forall|i: int| 0 <= i < entries.len() ==> outline_ok((#[trigger] entries[i]).outline),
    ensures
        outline_ok(font_path(entries, c)),
    decreases entries.len(),
{
    if entries.len() == 0 {
    } else if entries[0].ch == c {
        assert(outline_ok(entries[0].outline));
    } else {
        assert forall|i: int| 0 <= i < entries.drop_first().len() implies outline_ok(
            (#[trigger] entries.drop_first()[i]).outline,
        ) by {
            assert(entries.drop_first()[i] == entries[i + 1]);
        }
        lemma_font_path_ok(entries.drop_first(), c);
    }
}

impl FontView {
    /// The bounds font geometry relies on.
    pub open spec fn wf(self) -> bool {
        &&& 0 <= self.glyph_height <= 100000
        &&& forall|i: int| 0 <= i < self.entries.len() ==> outline_ok((#[trigger] self.entries[i]).outline)
    }
}

/// Copies an outline element by element.
fn copy_outline(src: &Vec<PathSegment>) -> (r: Vec<PathSegment>)
    ensures
        r@ == src@,
{
    let mut r: Vec<PathSegment> = Vec::new();
    let mut i: usize = 0;
    while i < src.len()
        invariant
            i <= src.len(),
            r@ == src@.take(i as int),
        decreases src.len() - i,
    {
        r.push(src[i]);
        i += 1;
        proof {
            assert(r@ =~= src@.take(i as int));
        }
    }
    proof {
        assert(src@.take(src@.len() as int) =~= src@);
    }
    r
}

impl Font {
    /// The outline for a character: the first matching glyph's outline, or
    /// an empty outline where the font lacks the character.
    pub fn get_path(&self, c: char) -> (r: Vec<PathSegment>)
        ensures
            r.deep_view() == font_path(self@.entries, c),
    {
        let mut i: usize = 0;
        while i < self.entries.len()
            invariant
                i <= self.entries.len(),
                forall|j: int| 0 <= j < i ==> (#[trigger] self@.entries[j]).ch != c,
            decreases self.entries.len() - i,
        {
            if self.entries[i].ch == c {
                let r = copy_outline(&self.entries[i].outline);
                proof {
                    lemma_font_path_skip(self@.entries, c, i as int);
                    assert(self@.entries.skip(i as int).len() > 0);
                    assert(self@.entries.skip(i as int)[0] == self@.entries[i as int]);
                    assert(font_path(self@.entries, c) == self@.entries[i as int].outline);
                }
                return r;
            }
            i += 1;
        }
        proof {
            lemma_font_path_skip(self@.entries, c, self@.entries.len() as int);
            assert(self@.entries.skip(self@.entries.len() as int).len() == 0);
        }
        Vec::new()
    }

    /// A font with a glyph height and no glyphs.
    pub fn empty(glyph_height: i64) -> (r: Font)
        requires
            0 <= glyph_height <= 100000,
        ensures
            r@.wf(),
            r@.glyph_height == glyph_height,
            r@.entries.len() == 0,
    {
        Font { glyph_height, entries: Vec::new() }
    }
}

/// The advance width of a lyric character, from the text face's metric
/// table; unknown characters take a stock width.
pub open spec fn glyph_width_of(c: char) -> i64 {
    match c {
        'a' => 398i64,
        'b' => 480i64,
        'c' => 372i64,
        'A' => 697i64,
        'B' => 547i64,
        'C' => 655i64,
        _ => 100i64,
    }
}

/// The advance width of a lyric character.
#[verifier::when_used_as_spec(glyph_width_of)]
pub fn glyph_widths(c: char) -> (r: i64)
    ensures
        r == glyph_width_of(c),
{
    match c {
        'a' => 398,
        'b' => 480,
        'c' => 372,
        'A' => 697,
        'B' => 547,
        'C' => 655,
        _ => 100,
    }
}

/// All the read-only drawing resources a render pass consumes: the music
/// symbol table, the text face for lyrics, chords and functions, and the
/// label face for connector figures.
#[derive(Clone, Debug, PartialEq, Eq)]
pub struct Resources {
    /// The music symbol outlines.
    pub music: GlyphStore,
    /// The text face.
    pub text: Font,
    /// The label face for connector-line figures.
    pub labels: Font,
}

/// The mathematical value of the resources.
pub struct ResourcesView {
    pub music: GlyphStoreView,
    pub text: FontView,
    pub labels: FontView,
}

impl View for Resources {
    type V = ResourcesView;

    open spec fn view(&self) -> ResourcesView {
        ResourcesView { music: self.music@, text: self.text@, labels: self.labels@ }
    }
}

impl DeepView for Resources {
    type V = ResourcesView;

    open spec fn deep_view(&self) -> ResourcesView {
        self.view()
    }
}

impl ResourcesView {
    /// Every outline of every table within bounds.
    pub open spec fn wf(self) -> bool {
        &&& self.music.wf()
        &&& self.text.wf()
        &&& self.labels.wf()
    }
}

impl Resources {
    /// Resources with empty tables and stock glyph heights.
    pub fn empty() -> (r: Resources)
        ensures
            r@.wf(),
    {
        Resources {
            music: GlyphStore::empty(),
            text: Font::empty(705),
            labels: Font::empty(705),
        }
    }
}

} // verus!
