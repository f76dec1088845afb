use crate::geom::{rect_ok, NRect, NRectView, COORD_LIMIT};
use vstd::prelude::*;

verus! {

/// Vertical direction of a stem or tie bow.
#[derive(Clone, Copy, Debug, PartialEq, Eq, Structural)]
pub enum DirUD {
    Up,
    Down,
}

/// The sign of a direction on the y axis, which grows downward.
pub open spec fn dir_sign(d: DirUD) -> int {
    match d {
        DirUD::Up => -1,
        DirUD::Down => 1,
    }
}

impl DirUD {
    /// The sign of the direction on the y axis.
    #[verifier::when_used_as_spec(dir_sign_spec)]
    pub fn sign(self) -> (r: i64)
        ensures
            r == dir_sign(self),
    {
        match self {
            DirUD::Up => -1,
            DirUD::Down => 1,
        }
    }

    /// Spec twin of [`DirUD::sign`].
    pub open spec fn dir_sign_spec(self) -> i64 {
        match self {
            DirUD::Up => -1i64,
            DirUD::Down => 1i64,
        }
    }
}

/// The drawn form of a notehead.
#[derive(Clone, Copy, Debug, PartialEq, Eq, Structural)]
pub enum HeadShape {
    BlackHead,
    WhiteHead,
    WholeHead,
}

/// The drawn form of a rest, by duration class.
#[derive(Clone, Copy, Debug, PartialEq, Eq, Structural)]
pub enum PauseShape {
    Whole,
    Half,
    Quarter,
    Eighth,
    Sixteenth,
    ThirtySecond,
}

/// The beam-weight class of a duration: how many beams it carries.
#[derive(Clone, Copy, Debug, PartialEq, Eq, Structural)]
pub enum BeamType {
    B8,
    B16,
    B32,
}

/// A note duration class.
#[derive(Clone, Copy, Debug, PartialEq, Eq, Structural)]
pub enum Duration {
    Whole,
    Half,
    Quarter,
    Eighth,
    Sixteenth,
    ThirtySecond,
    DottedHalf,
    DottedQuarter,
    DottedEighth,
}

/// Whether a duration class is drawn with a stem.
pub open spec fn has_stem(d: Duration) -> bool {
    d != Duration::Whole
}

/// Whether a duration class is drawn with a stem.
pub fn duration_has_stem(d: &Duration) -> (r: bool)
    ensures
        r == has_stem(*d),
{
    match d {
        Duration::Whole => false,
        _ => true,
    }
}

/// The beam-weight class of a duration.  Classes longer than an eighth do
/// not occur inside beam groups; they weigh as a single beam.
pub open spec fn beam_weight(d: Duration) -> BeamType {
    match d {
        Duration::Sixteenth => BeamType::B16,
        Duration::ThirtySecond => BeamType::B32,
        _ => BeamType::B8,
    }
}

/// The beam-weight class of a duration.
pub fn duration_to_beamtype(d: &Duration) -> (r: BeamType)
    ensures
        r == beam_weight(*d),
{
    match d {
        Duration::Sixteenth => BeamType::B16,
        Duration::ThirtySecond => BeamType::B32,
        _ => BeamType::B8,
    }
}

/// A clef kind.
#[derive(Clone, Copy, Debug, PartialEq, Eq, Structural)]
pub enum Clef {
    G,
    F,
    C,
}

/// An accidental kind.
#[derive(Clone, Copy, Debug, PartialEq, Eq, Structural)]
pub enum Accidental {
    Sharp,
    Flat,
    Natural,
    DblSharp,
    DblFlat,
}

/// A key signature: a count of sharps, flats or naturals, or open.
#[derive(Clone, Copy, Debug, PartialEq, Eq, Structural)]
pub enum Key {
    Sharps(u8),
    Flats(u8),
    Naturals(u8),
    Open,
}

/// The numerator figure of a standard time signature.
#[derive(Clone, Copy, Debug, PartialEq, Eq, Structural)]
pub enum TimeNominator {
    One,
    Two,
    Three,
    Four,
    Five,
    Six,
    Seven,
    Eight,
    Nine,
    Twelve,
}

/// The denominator figure of a standard time signature.
#[derive(Clone, Copy, Debug, PartialEq, Eq, Structural)]
pub enum TimeDenominator {
    Wholes,
    Halves,
    Quarters,
    Eighths,
    Sixteenths,
}

/// A time signature.
#[derive(Clone, Copy, Debug, PartialEq, Eq, Structural)]
pub enum Time {
    Common,
    Cut,
    Standard(TimeNominator, TimeDenominator),
}

/// A barline kind.
#[derive(Clone, Copy, Debug, PartialEq, Eq, Structural)]
pub enum BarlineType {
    Single,
    Double,
    Final,
    RepeatTo,
    RepeatFrom,
    RepeatToAndFrom,
    FraseTick,
}

/// The kind of a tie-from marker.
#[derive(Clone, Copy, Debug, PartialEq, Eq, Structural)]
pub enum TieFromType {
    Standard,
    LetRing,
    UnresolvedInChunk,
}

/// The kind of a tie-to marker.
#[derive(Clone, Copy, Debug, PartialEq, Eq, Structural)]
pub enum TieToType {
    ResolveTieFrom(u64, i8),
    LetRing,
}

/// Vertical stacking position of a tie among simultaneous voices.
#[derive(Clone, Copy, Debug, PartialEq, Eq, Structural)]
pub enum TiePlacement {
    Top,
    Mid,
    Bottom,
}

/// A model-side color tag.
#[derive(Clone, Copy, Debug, PartialEq, Eq, Structural)]
pub enum NColor {
    Black,
    White,
    Red,
    Blue,
    Dodgerblue,
    Tomato,
    Orange,
    Purple,
    Lime,
    Gray,
    LightGray,
    Green,
}

/// The style of an inter-event connector line.
#[derive(Clone, Copy, Debug, PartialEq, Eq, Structural)]
pub enum HeadLineType {
    Halfstep,
    Wholestep,
    LineColor(NColor),
    Plain,
}

/// The root or bass letter of a chord symbol.
#[derive(Clone, Copy, Debug, PartialEq, Eq, Structural)]
pub enum ChordRoot {
    Omitted,
    C,
    CSharp,
    CFlat,
    D,
    DSharp,
    DFlat,
    E,
    ESharp,
    EFlat,
    F,
    FSharp,
    FFlat,
    G,
    GSharp,
    GFlat,
    A,
    ASharp,
    AFlat,
    B,
    BSharp,
    BFlat,
}

/// The letter a chord root is drawn with.
pub open spec fn chord_root_char(r: ChordRoot) -> char {
    match r {
        ChordRoot::Omitted => ' ',
        ChordRoot::C | ChordRoot::CSharp | ChordRoot::CFlat => 'C',
        ChordRoot::D | ChordRoot::DSharp | ChordRoot::DFlat => 'D',
        ChordRoot::E | ChordRoot::ESharp | ChordRoot::EFlat => 'E',
        ChordRoot::F | ChordRoot::FSharp | ChordRoot::FFlat => 'F',
        ChordRoot::G | ChordRoot::GSharp | ChordRoot::GFlat => 'G',
        ChordRoot::A | ChordRoot::ASharp | ChordRoot::AFlat => 'A',
        ChordRoot::B | ChordRoot::BSharp | ChordRoot::BFlat => 'B',
    }
}

/// Whether a chord root carries a flat sign.
pub open spec fn chord_root_is_flat(r: ChordRoot) -> bool {
    match r {
        ChordRoot::CFlat | ChordRoot::DFlat | ChordRoot::EFlat | ChordRoot::FFlat
            | ChordRoot::GFlat | ChordRoot::AFlat | ChordRoot::BFlat => true,
        _ => false,
    }
}

/// Whether a chord root carries a sharp sign.
pub open spec fn chord_root_is_sharp(r: ChordRoot) -> bool {
    match r {
        ChordRoot::CSharp | ChordRoot::DSharp | ChordRoot::ESharp | ChordRoot::FSharp
            | ChordRoot::GSharp | ChordRoot::ASharp | ChordRoot::BSharp => true,
        _ => false,
    }
}

impl ChordRoot {
    /// The letter this root is drawn with.
    #[verifier::when_used_as_spec(chord_root_char_spec)]
    pub fn get_char(&self) -> (r: char)
        ensures
            r == chord_root_char(*self),
    {
        match self {
            ChordRoot::Omitted => ' ',
            ChordRoot::C | ChordRoot::CSharp | ChordRoot::CFlat => 'C',
            ChordRoot::D | ChordRoot::DSharp | ChordRoot::DFlat => 'D',
            ChordRoot::E | ChordRoot::ESharp | ChordRoot::EFlat => 'E',
            ChordRoot::F | ChordRoot::FSharp | ChordRoot::FFlat => 'F',
            ChordRoot::G | ChordRoot::GSharp | ChordRoot::GFlat => 'G',
            ChordRoot::A | ChordRoot::ASharp | ChordRoot::AFlat => 'A',
            ChordRoot::B | ChordRoot::BSharp | ChordRoot::BFlat => 'B',
        }
    }

    /// Spec twin of [`ChordRoot::get_char`].
    pub open spec fn chord_root_char_spec(&self) -> char {
        chord_root_char(*self)
    }

    /// Whether this root carries a flat sign.
    #[verifier::when_used_as_spec(is_flat_spec)]
    pub fn is_flat(&self) -> (r: bool)
        ensures
            r == chord_root_is_flat(*self),
    {
        match self {
            ChordRoot::CFlat | ChordRoot::DFlat | ChordRoot::EFlat | ChordRoot::FFlat
                | ChordRoot::GFlat | ChordRoot::AFlat | ChordRoot::BFlat => true,
            _ => false,
        }
    }

    /// Spec twin of [`ChordRoot::is_flat`].
    pub open spec fn is_flat_spec(&self) -> bool {
        chord_root_is_flat(*self)
    }

    /// Whether this root carries a sharp sign.
    #[verifier::when_used_as_spec(is_sharp_spec)]
    pub fn is_sharp(&self) -> (r: bool)
        ensures
            r == chord_root_is_sharp(*self),
    {
        match self {
            ChordRoot::CSharp | ChordRoot::DSharp | ChordRoot::ESharp | ChordRoot::FSharp
                | ChordRoot::GSharp | ChordRoot::ASharp | ChordRoot::BSharp => true,
            _ => false,
        }
    }

    /// Spec twin of [`ChordRoot::is_sharp`].
    pub open spec fn is_sharp_spec(&self) -> bool {
        chord_root_is_sharp(*self)
    }
}

/// Major or minor flavour of a chord symbol.
#[derive(Clone, Copy, Debug, PartialEq, Eq, Structural)]
pub enum ChordFlavour {
    Major,
    Minor,
}

/// The colour extension of a chord symbol.
#[derive(Clone, Copy, Debug, PartialEq, Eq, Structural)]
pub enum ChordColor {
    Plain,
    SusTwo,
    SusFour,
    Five,
    PlusFive,
    Six,
    Seven,
    MajSeven,
    MinusNine,
    Nine,
    PlusNine,
}

/// The letter of a harmonic function symbol.
#[derive(Clone, Copy, Debug, PartialEq, Eq, Structural)]
pub enum FunctionType {
    T,
    D,
    S,
    Sp,
    DD,
    Spacer,
}

/// The figure a function symbol carries beside its letter.
#[derive(Clone, Copy, Debug, PartialEq, Eq, Structural)]
pub enum FunctionColor {
    FcNone,
    Fc6,
    Fc64,
    Fc7,
}

/// The bass figure under a function symbol.
#[derive(Clone, Copy, Debug, PartialEq, Eq, Structural)]
pub enum FunctionBass {
    FbNone,
    Fb3,
}

/// What a positioned rectangle renders as.  The set is closed and
/// resolution is total: every variant has a defined, possibly empty,
/// primitive list.
#[derive(Clone, Copy, Debug, PartialEq, Eq, Structural)]
pub enum NRectType {
    Head(HeadShape),
    Dotted(u8),
    Pause(PauseShape),
    Flag(BeamType, DirUD),
    TplSymbol(char),
    Clef(Clef),
    KeySignature(Key),
    TimeSignature(Time),
    Barline(BarlineType),
    Accidental(Accidental),
    Wip,
    ColorRect(NColor),
    StrokeRect(NColor),
    TieFrom(u64, i8, TieFromType, Duration, DirUD, DirUD, TiePlacement),
    TieTo(TieToType),
    HelpLine,
    LyricChar(char),
    Dev(bool, NColor),
    Dummy,
    Spacer,
    LineFrom(i8, i8, HeadLineType),
    LineTo(i8, i8, HeadLineType),
    ChordSymbol(ChordRoot, ChordFlavour, ChordColor, ChordRoot),
    FunctionSymbol(FunctionType, FunctionColor, FunctionBass, bool, bool),
}

/// One renderable component of an event: a local rectangle and what it
/// renders as.
#[derive(Clone, Copy, Debug, PartialEq, Eq, Structural)]
pub struct NRectExt(pub NRect, pub NRectType);

/// The mathematical value of a positioned shape.
pub struct NRectExtView {
    pub rect: NRectView,
    pub kind: NRectType,
}

impl View for NRectExt {
    type V = NRectExtView;

    open spec fn view(&self) -> NRectExtView {
        NRectExtView { rect: self.0@, kind: self.1 }
    }
}

impl DeepView for NRectExt {
    type V = NRectExtView;

    open spec fn deep_view(&self) -> NRectExtView {
        self.view()
    }
}

impl NRectExt {
    /// Pairs a rectangle with what it renders as.
    pub fn new(rect: NRect, kind: NRectType) -> (r: NRectExt)
        ensures
            r@.rect == rect@,
            r@.kind == kind,
    {
        NRectExt(rect, kind)
    }

    /// Whether this shape is a tie-from marker.
    #[verifier::when_used_as_spec(is_tie_from_spec)]
    pub fn is_tie_from(&self) -> (r: bool)
        ensures
            r == self.is_tie_from_spec(),
    {
        match self.1 {
            NRectType::TieFrom(..) => true,
            _ => false,
        }
    }

    /// Spec twin of [`NRectExt::is_tie_from`].
    pub open spec fn is_tie_from_spec(&self) -> bool {
        self.1 is TieFrom
    }

    /// Whether this shape is a tie-to marker.
    #[verifier::when_used_as_spec(is_tie_to_spec)]
    pub fn is_tie_to(&self) -> (r: bool)
        ensures
            r == self.is_tie_to_spec(),
    {
        match self.1 {
            NRectType::TieTo(..) => true,
            _ => false,
        }
    }

    /// Spec twin of [`NRectExt::is_tie_to`].
    pub open spec fn is_tie_to_spec(&self) -> bool {
        self.1 is TieTo
    }
}

/// Whether a positioned shape's rectangle is within the coordinate bound.
pub open spec fn nrect_ext_ok(s: NRectExtView) -> bool {
    rect_ok(s.rect)
}

/// A complex horizontal adjustment carried by a beam member.
#[derive(Clone, Copy, Debug, PartialEq, Eq, Structural)]
pub enum ComplexXAdjustment {
    UpperRight(i64),
}

/// Per-voice stem and beam parameters of one event.
#[derive(Clone, Debug, PartialEq, Eq)]
pub struct RItemBeamData {
    /// Identity of the beamed note.
    pub id: u64,
    /// Stem direction.
    pub direction: DirUD,
    /// Stem tip staff level, in half-`SPACE` units.
    pub tip_level: i64,
    /// Top notehead staff level, in half-`SPACE` units.
    pub top_level: i64,
    /// Bottom notehead staff level, in half-`SPACE` units.
    pub bottom_level: i64,
    /// Width of the notehead the stem attaches to.
    pub head_width: i64,
    /// Optional complex horizontal adjustment.
    pub adjustment_x: Option<ComplexXAdjustment>,
    /// Duration class of this event.
    pub duration: Duration,
    /// On the terminal event of a group: the ordered duration classes of
    /// the whole group, for sub-beam pattern selection.
    pub note_durations: Option<Vec<Duration>>,
}

/// The mathematical value of per-voice stem and beam parameters.
pub struct RItemBeamDataView {
    pub id: u64,
    pub direction: DirUD,
    pub tip_level: int,
    pub top_level: int,
    pub bottom_level: int,
    pub head_width: int,
    pub adjustment_x: Option<ComplexXAdjustment>,
    pub duration: Duration,
    pub note_durations: Option<Seq<Duration>>,
}

impl View for RItemBeamData {
    type V = RItemBeamDataView;

    open spec fn view(&self) -> RItemBeamDataView {
        RItemBeamDataView {
            id: self.id,
            direction: self.direction,
            tip_level: self.tip_level as int,
            top_level: self.top_level as int,
            bottom_level: self.bottom_level as int,
            head_width: self.head_width as int,
            adjustment_x: self.adjustment_x,
            duration: self.duration,
            note_durations: match &self.note_durations {
                Some(v) => Some(v@),
                None => None,
            },
        }
    }
}

impl DeepView for RItemBeamData {
    type V = RItemBeamDataView;

    open spec fn deep_view(&self) -> RItemBeamDataView {
        self.view()
    }
}

/// The bounds beam arithmetic relies on.
pub open spec fn beam_data_ok(d: RItemBeamDataView) -> bool {
    &&& -1000 <= d.tip_level <= 1000
    &&& -1000 <= d.top_level <= 1000
    &&& -1000 <= d.bottom_level <= 1000
    &&& 0 <= d.head_width <= 100000
    &&& match d.adjustment_x {
        Some(ComplexXAdjustment::UpperRight(v)) => -100000 <= v <= 100000,
        None => true,
    }
}

/// The beam state of one voice at one event.
#[derive(Clone, Debug, PartialEq, Eq)]
pub enum RItemBeam {
    /// No beamed note in this voice at this event.
    NoBeam,
    /// A lone stemmed note outside any group.
    Single(RItemBeamData),
    /// Opens a beam group.
    Start(RItemBeamData),
    /// Continues a beam group.
    Middle(RItemBeamData),
    /// Closes a beam group.
    End(RItemBeamData),
}

/// The mathematical value of a beam state.
pub enum RItemBeamView {
    NoBeam,
    Single(RItemBeamDataView),
    Start(RItemBeamDataView),
    Middle(RItemBeamDataView),
    End(RItemBeamDataView),
}

impl View for RItemBeam {
    type V = RItemBeamView;

    open spec fn view(&self) -> RItemBeamView {
        match self {
            RItemBeam::NoBeam => RItemBeamView::NoBeam,
            RItemBeam::Single(d) => RItemBeamView::Single(d@),
            RItemBeam::Start(d) => RItemBeamView::Start(d@),
            RItemBeam::Middle(d) => RItemBeamView::Middle(d@),
            RItemBeam::End(d) => RItemBeamView::End(d@),
        }
    }
}

impl DeepView for RItemBeam {
    type V = RItemBeamView;

    open spec fn deep_view(&self) -> RItemBeamView {
        self.view()
    }
}

/// Whether the data under a beam state, if any, is within bounds.  The
/// terminal state of a group must carry the group's ordered duration
/// list, which sub-beam pattern selection reads.
pub open spec fn beam_state_ok(b: RItemBeamView) -> bool {
    match b {
        RItemBeamView::NoBeam => true,
        RItemBeamView::Single(d) => beam_data_ok(d),
        RItemBeamView::Start(d) => beam_data_ok(d),
        RItemBeamView::Middle(d) => beam_data_ok(d),
        RItemBeamView::End(d) => beam_data_ok(d) && d.note_durations is Some,
    }
}

/// One musical time-slice of one row: its absolute anchor (assigned
/// upstream; absent means the model is inconsistent), its renderable
/// shapes, one beam state per voice, and connector specs toward the
/// previous event.
#[derive(Clone, Debug, PartialEq, Eq)]
pub struct RItem {
    /// Absolute x anchor, assigned by the upstream layout pass.
    pub coord_x: Option<i64>,
    /// Absolute y anchor, assigned by the upstream layout pass.
    pub coord_y: Option<i64>,
    /// The renderable components of this event.
    pub nrects: Vec<NRectExt>,
    /// Beam state of the first voice.
    pub note_beam: RItemBeam,
    /// Beam state of the second voice.
    pub note2_beam: RItemBeam,
    /// Connector lines ending at this event: `(from level, to level,
    /// style)`.
    pub lines: Vec<(i8, i8, HeadLineType)>,
}

/// The mathematical value of an event.
pub struct RItemView {
    pub coord_x: Option<int>,
    pub coord_y: Option<int>,
    pub nrects: Seq<NRectExtView>,
    pub note_beam: RItemBeamView,
    pub note2_beam: RItemBeamView,
    pub lines: Seq<(i8, i8, HeadLineType)>,
}

impl View for RItem {
    type V = RItemView;

    open spec fn view(&self) -> RItemView {
        RItemView {
            coord_x: match self.coord_x {
                Some(x) => Some(x as int),
                None => None,
            },
            coord_y: match self.coord_y {
                Some(y) => Some(y as int),
                None => None,
            },
            nrects: self.nrects.deep_view(),
            note_beam: self.note_beam@,
            note2_beam: self.note2_beam@,
            lines: self.lines@,
        }
    }
}

impl DeepView for RItem {
    type V = RItemView;

    open spec fn deep_view(&self) -> RItemView {
        self.view()
    }
}

/// The bounds event rendering relies on.
pub open spec fn item_ok(e: RItemView) -> bool {
    &&& match e.coord_x {
        Some(x) => -COORD_LIMIT <= x <= COORD_LIMIT,
        None => true,
    }
    &&& match e.coord_y {
        Some(y) => -COORD_LIMIT <= y <= COORD_LIMIT,
        None => true,
    }
    &&& forall|i: int| 0 <= i < e.nrects.len() ==> nrect_ext_ok(#[trigger] e.nrects[i])
    &&& beam_state_ok(e.note_beam)
    &&& beam_state_ok(e.note2_beam)
}

/// Which kind of part a row belongs to; staff lines are drawn only for
/// music rows.
#[derive(Clone, Copy, Debug, PartialEq, Eq, Structural)]
pub enum PartTemplate {
    Music,
    Chords,
    Lyrics,
    Functions,
}

/// One staff line (row): a vertical position, an ordered slot per time
/// column holding an event id or nothing, and row-level decorations.
#[derive(Clone, Debug, PartialEq, Eq)]
pub struct RRow {
    /// Vertical position of the row's center line.
    pub y: i64,
    /// One slot per time column: the id of the event there, or empty.
    pub items: Vec<Option<usize>>,
    /// Row-level decoration shapes.
    pub nrects: Vec<NRectExt>,
}

/// The mathematical value of a row.
pub struct RRowView {
    pub y: int,
    pub items: Seq<Option<usize>>,
    pub nrects: Seq<NRectExtView>,
}

impl View for RRow {
    type V = RRowView;

    open spec fn view(&self) -> RRowView {
        RRowView { y: self.y as int, items: self.items@, nrects: self.nrects.deep_view() }
    }
}

impl DeepView for RRow {
    type V = RRowView;

    open spec fn deep_view(&self) -> RRowView {
        self.view()
    }
}

/// One time column: a horizontal position, a duration tag (zero marks a
/// non-sounding column), and one slot per row.
#[derive(Clone, Debug, PartialEq, Eq)]
pub struct RCol {
    /// Horizontal position of the column.
    pub x: i64,
    /// Musical duration of the column; zero for non-sounding columns.
    pub duration: u64,
    /// One slot per row: the id of the event there, or empty.
    pub items: Vec<Option<usize>>,
}

/// The mathematical value of a column.
pub struct RColView {
    pub x: int,
    pub duration: u64,
    pub items: Seq<Option<usize>>,
}

impl View for RCol {
    type V = RColView;

    open spec fn view(&self) -> RColView {
        RColView { x: self.x as int, duration: self.duration, items: self.items@ }
    }
}

impl DeepView for RCol {
    type V = RColView;

    open spec fn deep_view(&self) -> RColView {
        self.view()
    }
}

/// The positioned score model: an arena of events, rows and columns that
/// reference events by id, an optional per-row part template, and overall
/// size.  It is read, never written, during rendering.
#[derive(Clone, Debug, PartialEq, Eq)]
pub struct RMatrix {
    /// The arena of events; rows and columns hold indexes into it.
    pub events: Vec<RItem>,
    /// The ordered staff lines.
    pub rows: Vec<RRow>,
    /// The ordered time columns.
    pub cols: Vec<RCol>,
    /// One part template per row, where known.
    pub bartemplate: Option<Vec<PartTemplate>>,
    /// Overall width of the layout.
    pub width: i64,
    /// Overall height of the layout.
    pub height: i64,
}

/// The mathematical value of a score layout.
pub struct RMatrixView {
    pub events: Seq<RItemView>,
    pub rows: Seq<RRowView>,
    pub cols: Seq<RColView>,
    pub bartemplate: Option<Seq<PartTemplate>>,
    pub width: int,
    pub height: int,
}

impl View for RMatrix {
    type V = RMatrixView;

    open spec fn view(&self) -> RMatrixView {
        RMatrixView {
            events: self.events.deep_view(),
            rows: self.rows.deep_view(),
            cols: self.cols.deep_view(),
            bartemplate: match &self.bartemplate {
                Some(v) => Some(v@),
                None => None,
            },
            width: self.width as int,
            height: self.height as int,
        }
    }
}

impl DeepView for RMatrix {
    type V = RMatrixView;

    open spec fn deep_view(&self) -> RMatrixView {
        self.view()
    }
}

/// Well-formedness of the score model: every id in range, matrix shape
/// consistent, every coordinate within bounds.
pub open spec fn matrix_ok(m: RMatrixView) -> bool {
    &&& forall|i: int| 0 <= i < m.events.len() ==> item_ok(#[trigger] m.events[i])
    &&& forall|r: int, s: int|
        0 <= r < m.rows.len() && 0 <= s < m.rows[r].items.len() ==> match #[trigger] m.rows[r].items[s] {
            Some(id) => id < m.events.len(),
            None => true,
        }
    &&& forall|c: int, s: int|
        0 <= c < m.cols.len() && 0 <= s < m.cols[c].items.len() ==> match #[trigger] m.cols[c].items[s] {
            Some(id) => id < m.events.len(),
            None => true,
        }
    &&& forall|r: int|
        0 <= r < m.rows.len() ==> {
            &&& -COORD_LIMIT <= (#[trigger] m.rows[r]).y <= COORD_LIMIT
            &&& forall|i: int|
                0 <= i < m.rows[r].nrects.len() ==> nrect_ext_ok(#[trigger] m.rows[r].nrects[i])
        }
    &&& forall|c: int|
        0 <= c < m.cols.len() ==> {
            &&& -COORD_LIMIT <= (#[trigger] m.cols[c]).x <= COORD_LIMIT
            &&& m.cols[c].items.len() == m.rows.len()
        }
    &&& match m.bartemplate {
        Some(t) => t.len() == m.rows.len(),
        None => true,
    }
    &&& -COORD_LIMIT <= m.width <= COORD_LIMIT
    &&& -COORD_LIMIT <= m.height <= COORD_LIMIT
}

/// The fatal precondition violations a render pass can report.  Each one
/// means the upstream layout pass produced an inconsistent model; the
/// render aborts with the precise cause and draws nothing.
#[derive(Clone, Copy, Debug, PartialEq, Eq, Structural)]
pub enum RenderError {
    /// A referenced event is missing its resolved coordinate.
    MissingCoordinate,
    /// A tie-to marker names a `(identity, level)` key that no earlier
    /// tie-from marker inserted.
    UnresolvedTie(u64, i8),
    /// A tie-to let-ring marker, whose rendering is not defined.
    LetRingTieUnsupported,
}

/// The soft conditions a render pass notes in its diagnostics sink while
/// continuing.
#[derive(Clone, Copy, Debug, PartialEq, Eq, Structural)]
pub enum Diagnostic {
    /// A beam group's duration tuple matches no recognized sub-beam
    /// pattern; secondary beams were omitted for that group.
    UnhandledSubBeamPattern,
    /// A beam group was flushed with a single member; nothing was drawn.
    SingleEventBeamGroup,
    /// A let-ring tie-from marker at the given slot; it terminates itself.
    TieLetRing(usize),
    /// A tie-from marker whose partner lies beyond this rendering chunk,
    /// at the given slot; its tie is deferred, not drawn here.
    TieUnresolvedInChunk(usize),
}

} // verus!
