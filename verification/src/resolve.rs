use crate::fonts::{font_path, outline_within, FontView, GlyphStoreView, Resources, ResourcesView};
use crate::geom::{div_trunc, div_trunc_i64, NRect, COORD_LIMIT};
use crate::model::{
    chord_root_char, chord_root_is_flat, chord_root_is_sharp, nrect_ext_ok, Accidental,
    BarlineType, BeamType, ChordColor, ChordFlavour, ChordRoot, Clef, DirUD, FunctionBass,
    FunctionColor, FunctionType, HeadShape, Key, NColor, NRectExt, NRectExtView, NRectType,
    PauseShape, TieFromType, TieToType, Time, TimeDenominator, TimeNominator,
};
use crate::paths::{
    inv01, inv01_spec, lemma_inv01_within, lemma_move_within, lemma_scale_within, move_path,
    move_path_spec, scale_coord, scale_path, scale_path_spec,
};
use crate::prim::{
    append_items, no_items, one_item, push_item, Color, Fill, GraphicItem, GraphicItemView,
    PathCacheInfo, PathSegment, PathSegmentView, Stroke, StrokeView,
};
use crate::style::{Style, StyleView};
use vstd::prelude::*;

verus! {

/// The output color for a model-side color tag.
pub open spec fn color_of(c: NColor) -> Color {
    match c {
        NColor::Black => Color::Black,
        NColor::White => Color::White,
        NColor::Red => Color::Red,
        NColor::Blue => Color::Blue,
        NColor::Dodgerblue => Color::Dodgerblue,
        NColor::Tomato => Color::Tomato,
        NColor::Orange => Color::Orange,
        NColor::Purple => Color::Purple,
        NColor::Lime => Color::Lime,
        NColor::Gray => Color::Gray,
        NColor::LightGray => Color::LightGray,
        NColor::Green => Color::Green,
    }
}

/// The output color for a model-side color tag.
#[verifier::when_used_as_spec(color_of)]
pub fn ncolor2color(ncolor: NColor) -> (r: Color)
    ensures
        r == color_of(ncolor),
{
    match ncolor {
        NColor::Black => Color::Black,
        NColor::White => Color::White,
        NColor::Red => Color::Red,
        NColor::Blue => Color::Blue,
        NColor::Dodgerblue => Color::Dodgerblue,
        NColor::Tomato => Color::Tomato,
        NColor::Orange => Color::Orange,
        NColor::Purple => Color::Purple,
        NColor::Lime => Color::Lime,
        NColor::Gray => Color::Gray,
        NColor::LightGray => Color::LightGray,
        NColor::Green => Color::Green,
    }
}

/// A black filled path with no stroke: the stock form of a glyph.
pub open spec fn path_item(ops: Seq<PathSegmentView>) -> GraphicItemView {
    GraphicItemView::Path(
        ops,
        StrokeView::NoStroke,
        Fill::Fillstyle(Color::Black),
        PathCacheInfo::NoCache,
    )
}

/// A glyph outline flipped out of its table convention and translated to
/// its anchor.
pub open spec fn moved_glyph(outline: Seq<PathSegmentView>, mx: int, my: int) -> Seq<
    PathSegmentView,
> {
    move_path_spec(inv01_spec(outline), mx, my)
}

/// A font outline scaled (in thousandths per axis) and translated.
pub open spec fn scaled_moved(
    outline: Seq<PathSegmentView>,
    sx: int,
    sy: int,
    mx: int,
    my: int,
) -> Seq<PathSegmentView> {
    move_path_spec(scale_path_spec(outline, sx, sy), mx, my)
}

/// The vertical offset a rest glyph is placed at, by duration class.
pub open spec fn pause_y(s: StyleView, p: PauseShape) -> int {
    match p {
        PauseShape::Whole => s.half_space(),
        PauseShape::Half => s.space(),
        PauseShape::Quarter => s.sp(30),
        PauseShape::Eighth => s.space(),
        PauseShape::Sixteenth => s.space(),
        PauseShape::ThirtySecond => 0,
    }
}

/// The outline a rest glyph uses, by duration class.
pub open spec fn pause_glyph(g: GlyphStoreView, p: PauseShape) -> Seq<PathSegmentView> {
    match p {
        PauseShape::Whole => g.pause_whole,
        PauseShape::Half => g.pause_half,
        PauseShape::Quarter => g.pause_quarter,
        PauseShape::Eighth => g.pause_eighth,
        PauseShape::Sixteenth => g.pause_sixteenth,
        PauseShape::ThirtySecond => g.pause_thirtysecond,
    }
}

/// The outline an accidental uses.
pub open spec fn accidental_glyph(g: GlyphStoreView, a: Accidental) -> Seq<PathSegmentView> {
    match a {
        Accidental::Sharp => g.accidental_sharp,
        Accidental::Flat => g.accidental_flat,
        Accidental::Natural => g.accidental_natural,
        Accidental::DblSharp => g.accidental_doublesharp,
        Accidental::DblFlat => g.accidental_doubleflat,
    }
}

/// The vertical offset an accidental is placed at: flats sit lower than
/// the other signs.
pub open spec fn accidental_y(s: StyleView, a: Accidental) -> int {
    match a {
        Accidental::Flat => 2 * s.space(),
        _ => s.sp(30),
    }
}

/// The accumulated sharp glyphs of a key signature with `n` sharps; the
/// vertical zig-zag per position is an enumerated lookup, not a formula.
pub open spec fn sharps_ops(g: GlyphStoreView, s: StyleView, n: u8) -> Seq<PathSegmentView> {
    let o1 = move_path_spec(inv01_spec(g.accidental_sharp), 0, s.sp(-40));
    let o2 = if n >= 2 {
        o1 + move_path_spec(inv01_spec(g.accidental_sharp), s.accidental_width_sharp, s.sp(-10))
    } else {
        o1
    };
    let o3 = if n >= 3 {
        o2 + move_path_spec(
            inv01_spec(g.accidental_sharp),
            s.accidental_width_sharp * 2,
            s.sp(-50),
        )
    } else {
        o2
    };
    let o4 = if n >= 4 {
        o3 + move_path_spec(
            inv01_spec(g.accidental_sharp),
            s.accidental_width_sharp * 3,
            s.sp(-20),
        )
    } else {
        o3
    };
    let o5 = if n >= 5 {
        o4 + move_path_spec(
            inv01_spec(g.accidental_sharp),
            s.accidental_width_sharp * 4,
            s.sp(-60),
        )
    } else {
        o4
    };
    if n >= 6 {
        o5 + move_path_spec(
            inv01_spec(g.accidental_sharp),
            s.accidental_width_sharp * 5,
            s.sp(-30),
        )
    } else {
        o5
    }
}

/// The accumulated flat glyphs of a key signature with `n` flats.
pub open spec fn flats_ops(g: GlyphStoreView, s: StyleView, n: u8) -> Seq<PathSegmentView> {
    let o1 = inv01_spec(g.accidental_flat);
    let o2 = if n >= 2 {
        o1 + move_path_spec(inv01_spec(g.accidental_flat), s.accidental_width_flat, s.sp(-30))
    } else {
        o1
    };
    let o3 = if n >= 3 {
        o2 + move_path_spec(inv01_spec(g.accidental_flat), s.accidental_width_flat * 2, s.sp(10))
    } else {
        o2
    };
    let o4 = if n >= 4 {
        o3 + move_path_spec(
            inv01_spec(g.accidental_flat),
            s.accidental_width_flat * 3,
            s.sp(-20),
        )
    } else {
        o3
    };
    let o5 = if n >= 5 {
        o4 + move_path_spec(inv01_spec(g.accidental_flat), s.accidental_width_flat * 4, s.sp(20))
    } else {
        o4
    };
    if n >= 6 {
        o5 + move_path_spec(
            inv01_spec(g.accidental_flat),
            s.accidental_width_flat * 5,
            s.sp(-10),
        )
    } else {
        o5
    }
}

/// The digit outline of a time signature denominator.
pub open spec fn denominator_glyph(g: GlyphStoreView, d: TimeDenominator) -> Seq<
    PathSegmentView,
> {
    match d {
        TimeDenominator::Wholes => g.number_one,
        TimeDenominator::Halves => g.number_two,
        TimeDenominator::Quarters => g.number_four,
        TimeDenominator::Eighths => g.number_eight,
        TimeDenominator::Sixteenths => g.number_four,
    }
}

/// The assembled, not yet anchored, outline of a time signature.
pub open spec fn time_signature_ops(g: GlyphStoreView, s: StyleView, t: Time) -> Seq<
    PathSegmentView,
> {
    match t {
        Time::Common => inv01_spec(g.time_common),
        Time::Cut => inv01_spec(g.time_cut),
        Time::Standard(nom, denom) => {
            let xd: int = if nom == TimeNominator::Three {
                5
            } else {
                0
            };
            let dops = move_path_spec(inv01_spec(denominator_glyph(g, denom)), xd, s.space());
            let xn: int = if denom == TimeDenominator::Halves {
                5
            } else {
                0
            };
            let nops = match nom {
                TimeNominator::One => move_path_spec(inv01_spec(g.number_one), xn, -s.space()),
                TimeNominator::Two => move_path_spec(inv01_spec(g.number_two), xn, -s.space()),
                TimeNominator::Three => move_path_spec(
                    inv01_spec(g.number_three),
                    xn + 6,
                    -s.space(),
                ),
                TimeNominator::Six => move_path_spec(inv01_spec(g.number_six), xn, -s.space()),
                TimeNominator::Nine => move_path_spec(inv01_spec(g.number_nine), xn, -s.space()),
                TimeNominator::Twelve => move_path_spec(inv01_spec(g.number_one), xn, -s.space())
                    + move_path_spec(inv01_spec(g.number_two), s.space(), -s.space()),
                _ => move_path_spec(inv01_spec(g.number_four), xn, -s.space()),
            };
            dops + nops
        },
    }
}

/// The advance width of a chord root or bass letter.
pub open spec fn chord_letter_advance(c: char, bass: bool) -> int {
    if c == 'G' || c == 'D' {
        60
    } else if c == 'A' || c == 'B' {
        55
    } else if bass {
        52
    } else {
        50
    }
}

/// The figure character a chord colour is drawn with.
pub open spec fn chord_color_figure(c: ChordColor) -> char {
    match c {
        ChordColor::SusTwo => '2',
        ChordColor::SusFour => '4',
        ChordColor::Five => '5',
        ChordColor::PlusFive => '5',
        ChordColor::Six => '6',
        ChordColor::MinusNine => '9',
        ChordColor::Nine => '9',
        ChordColor::PlusNine => '9',
        ChordColor::Seven => '7',
        ChordColor::MajSeven => '7',
        ChordColor::Plain => ' ',
    }
}

/// Whether a chord colour draws a figure digit.
pub open spec fn chord_color_has_figure(c: ChordColor) -> bool {
    match c {
        ChordColor::SusTwo | ChordColor::SusFour | ChordColor::Five | ChordColor::PlusFive
            | ChordColor::Six | ChordColor::Seven | ChordColor::MajSeven | ChordColor::MinusNine
            | ChordColor::Nine | ChordColor::PlusNine => true,
        ChordColor::Plain => false,
    }
}

/// The cursor width a chord colour's sign consumes before its figure.
pub open spec fn chord_color_pre_width(c: ChordColor) -> int {
    match c {
        ChordColor::PlusFive => 15,
        ChordColor::MinusNine => 15,
        ChordColor::SusTwo | ChordColor::SusFour | ChordColor::MajSeven => 75,
        _ => 0,
    }
}

/// The cursor after the root letter.
pub open spec fn chord_w1(root: ChordRoot) -> int {
    if root == ChordRoot::Omitted {
        0
    } else {
        chord_letter_advance(chord_root_char(root), false)
    }
}

/// The cursor after the root's accidental sign.
pub open spec fn chord_w2(root: ChordRoot) -> int {
    if root != ChordRoot::Omitted && (chord_root_is_flat(root) || chord_root_is_sharp(root)) {
        chord_w1(root) + 30
    } else {
        chord_w1(root)
    }
}

/// The cursor after the flavour letter.
pub open spec fn chord_w3(root: ChordRoot, flavour: ChordFlavour) -> int {
    if flavour == ChordFlavour::Minor {
        chord_w2(root) + 80
    } else {
        chord_w2(root)
    }
}

/// The cursor after the colour's sign.
pub open spec fn chord_w4(root: ChordRoot, flavour: ChordFlavour, color: ChordColor) -> int {
    if color != ChordColor::Plain {
        chord_w3(root, flavour) + chord_color_pre_width(color)
    } else {
        chord_w3(root, flavour)
    }
}

/// The cursor after the colour's figure.
pub open spec fn chord_w5(root: ChordRoot, flavour: ChordFlavour, color: ChordColor) -> int {
    if color != ChordColor::Plain && chord_color_has_figure(color) {
        chord_w4(root, flavour, color) + 25
    } else {
        chord_w4(root, flavour, color)
    }
}

/// The half chord margin every glyph of the symbol is shifted by.
pub open spec fn chord_x(s: StyleView) -> int {
    div_trunc(s.chord_margin, 2)
}

/// The root letter of a chord symbol.
pub open spec fn chord_root_part(
    root: ChordRoot,
    rx: int,
    ry: int,
    s: StyleView,
    res: ResourcesView,
) -> Seq<GraphicItemView> {
    if root == ChordRoot::Omitted {
        Seq::empty()
    } else {
        seq![
            path_item(
                scaled_moved(
                    font_path(res.text.entries, chord_root_char(root)),
                    s.chord_scale_milli,
                    s.chord_scale_milli,
                    rx + chord_x(s),
                    ry + scale_coord(res.text.glyph_height, s.chord_scale_milli),
                ),
            ),
        ]
    }
}

/// The accidental sign behind the root letter; a sharp is drawn slightly
/// smaller than a flat.
pub open spec fn chord_root_sign_part(
    root: ChordRoot,
    rx: int,
    ry: int,
    s: StyleView,
    res: ResourcesView,
) -> Seq<GraphicItemView> {
    let cs = s.chord_scale_milli;
    let gh = res.text.glyph_height;
    if root != ChordRoot::Omitted && chord_root_is_flat(root) {
        seq![
            path_item(
                scaled_moved(
                    res.music.accidental_flat,
                    cs,
                    -cs,
                    rx + chord_x(s) + chord_w1(root),
                    ry + scale_coord(gh, cs) - s.sp(26),
                ),
            ),
        ]
    } else if root != ChordRoot::Omitted && chord_root_is_sharp(root) {
        seq![
            path_item(
                scaled_moved(
                    res.music.accidental_sharp,
                    div_trunc(cs * 9, 10),
                    -div_trunc(cs * 9, 10),
                    rx + chord_x(s) + chord_w1(root),
                    ry + scale_coord(gh, cs) - s.sp(32),
                ),
            ),
        ]
    } else {
        Seq::empty()
    }
}

/// The minor-flavour letter.
pub open spec fn chord_flavour_part(
    root: ChordRoot,
    flavour: ChordFlavour,
    rx: int,
    ry: int,
    s: StyleView,
    res: ResourcesView,
) -> Seq<GraphicItemView> {
    let cs = s.chord_scale_milli;
    if flavour == ChordFlavour::Minor {
        seq![
            path_item(
                scaled_moved(
                    font_path(res.text.entries, 'm'),
                    cs,
                    cs,
                    rx + chord_x(s) + chord_w2(root),
                    ry + scale_coord(res.text.glyph_height, cs),
                ),
            ),
        ]
    } else {
        Seq::empty()
    }
}

/// The colour's sign: an accidental for raised or lowered colours, the
/// spelled-out letters for suspensions and the major seven.
pub open spec fn chord_color_sign_part(
    root: ChordRoot,
    flavour: ChordFlavour,
    color: ChordColor,
    rx: int,
    ry: int,
    s: StyleView,
    res: ResourcesView,
) -> Seq<GraphicItemView> {
    let cas = s.chord_accidental_scale_milli;
    let cfs = s.chord_figure_scale_milli;
    let gh = res.text.glyph_height;
    let cx = rx + chord_x(s) + chord_w3(root, flavour);
    if color == ChordColor::PlusFive {
        seq![
            path_item(
                scaled_moved(
                    res.music.accidental_sharp,
                    cas,
                    -cas,
                    cx,
                    ry + scale_coord(gh, cas) - s.sp(14),
                ),
            ),
        ]
    } else if color == ChordColor::MinusNine {
        seq![
            path_item(
                scaled_moved(
                    res.music.accidental_flat,
                    cas,
                    -cas,
                    cx,
                    ry + scale_coord(gh, cas) - s.sp(14),
                ),
            ),
        ]
    } else if color == ChordColor::SusTwo || color == ChordColor::SusFour {
        seq![
            path_item(
                scaled_moved(
                    font_path(res.text.entries, 's'),
                    cfs,
                    cfs,
                    cx,
                    ry + scale_coord(gh, cfs) - s.sp(6),
                ),
            ),
            path_item(
                scaled_moved(
                    font_path(res.text.entries, 'u'),
                    cfs,
                    cfs,
                    cx + 22,
                    ry + scale_coord(gh, cfs) - s.sp(6),
                ),
            ),
            path_item(
                scaled_moved(
                    font_path(res.text.entries, 's'),
                    cfs,
                    cfs,
                    cx + 49,
                    ry + scale_coord(gh, cfs) - s.sp(6),
                ),
            ),
        ]
    } else if color == ChordColor::MajSeven {
        seq![
            path_item(
                scaled_moved(
                    font_path(res.text.entries, 'm'),
                    cfs,
                    cfs,
                    cx - 5,
                    ry + scale_coord(gh, cfs) - s.sp(6),
                ),
            ),
            path_item(
                scaled_moved(
                    font_path(res.text.entries, 'a'),
                    cfs,
                    cfs,
                    cx + 40,
                    ry + scale_coord(gh, cfs) - s.sp(6),
                ),
            ),
            path_item(
                scaled_moved(
                    font_path(res.text.entries, 'j'),
                    cfs,
                    cfs,
                    cx + 65,
                    ry + scale_coord(gh, cfs) - s.sp(6),
                ),
            ),
        ]
    } else {
        Seq::empty()
    }
}

/// The colour's figure digit.
pub open spec fn chord_color_figure_part(
    root: ChordRoot,
    flavour: ChordFlavour,
    color: ChordColor,
    rx: int,
    ry: int,
    s: StyleView,
    res: ResourcesView,
) -> Seq<GraphicItemView> {
    let cfs = s.chord_figure_scale_milli;
    if color != ChordColor::Plain && chord_color_has_figure(color) {
        seq![
            path_item(
                scaled_moved(
                    font_path(res.text.entries, chord_color_figure(color)),
                    cfs,
                    cfs,
                    rx + chord_x(s) + chord_w4(root, flavour, color),
                    ry + scale_coord(res.text.glyph_height, cfs) - s.sp(8),
                ),
            ),
        ]
    } else {
        Seq::empty()
    }
}

/// The bass slash, letter and sign.  The bass sign reuses the sharp
/// outline for both accidentals, at the flat or sharp offsets.
pub open spec fn chord_bass_part(
    root: ChordRoot,
    flavour: ChordFlavour,
    color: ChordColor,
    bass: ChordRoot,
    rx: int,
    ry: int,
    s: StyleView,
    res: ResourcesView,
) -> Seq<GraphicItemView> {
    let cs = s.chord_scale_milli;
    let cfs = s.chord_figure_scale_milli;
    let gh = res.text.glyph_height;
    let bass_slash_x = rx + chord_x(s) + chord_w5(root, flavour, color);
    let bass_x = bass_slash_x + 28;
    if bass == ChordRoot::Omitted {
        Seq::empty()
    } else {
        let bass_acc_x = bass_x + chord_letter_advance(chord_root_char(bass), true);
        let slash = GraphicItemView::Line(
            bass_slash_x + s.space(),
            ry + scale_coord(gh, cfs) - 2 * s.space(),
            bass_slash_x,
            ry + scale_coord(gh, cfs) + s.sp(26),
            StrokeView::Strokestyle(5, Color::Black),
        );
        let letter = path_item(
            scaled_moved(
                font_path(res.text.entries, chord_root_char(bass)),
                cs,
                cs,
                bass_x,
                ry + scale_coord(gh, cs),
            ),
        );
        let sign: Seq<GraphicItemView> = if chord_root_is_flat(bass) {
            seq![
                path_item(
                    scaled_moved(
                        res.music.accidental_sharp,
                        cs,
                        -cs,
                        bass_acc_x,
                        ry + scale_coord(gh, cs) - s.sp(26),
                    ),
                ),
            ]
        } else if chord_root_is_sharp(bass) {
            seq![
                path_item(
                    scaled_moved(
                        res.music.accidental_sharp,
                        div_trunc(cs * 9, 10),
                        -div_trunc(cs * 9, 10),
                        bass_acc_x,
                        ry + scale_coord(gh, cs) - s.sp(32),
                    ),
                ),
            ]
        } else {
            Seq::empty()
        };
        seq![slash, letter] + sign
    }
}

/// The primitives of a chord symbol: letters, signs and figures placed
/// at a running horizontal cursor of enumerated, glyph-specific
/// advances.
pub open spec fn chord_symbol_view(
    rx: int,
    ry: int,
    root: ChordRoot,
    flavour: ChordFlavour,
    color: ChordColor,
    bass: ChordRoot,
    s: StyleView,
    res: ResourcesView,
) -> Seq<GraphicItemView> {
    chord_root_part(root, rx, ry, s, res) + chord_root_sign_part(root, rx, ry, s, res)
        + chord_flavour_part(root, flavour, rx, ry, s, res) + chord_color_sign_part(
        root,
        flavour,
        color,
        rx,
        ry,
        s,
        res,
    ) + chord_color_figure_part(root, flavour, color, rx, ry, s, res) + chord_bass_part(
        root,
        flavour,
        color,
        bass,
        rx,
        ry,
        s,
        res,
    )
}

/// The assembled letter outline of a function symbol, before scaling.
pub open spec fn function_letter_ops(ftype: FunctionType, text: FontView) -> Seq<
    PathSegmentView,
> {
    match ftype {
        FunctionType::T => font_path(text.entries, 'T'),
        FunctionType::D => font_path(text.entries, 'D'),
        FunctionType::S => font_path(text.entries, 'S'),
        FunctionType::Sp => font_path(text.entries, 'S') + move_path_spec(
            font_path(text.entries, 'p'),
            430,
            0,
        ),
        FunctionType::DD => font_path(text.entries, 'D') + move_path_spec(
            font_path(text.entries, 'D'),
            200,
            -120,
        ),
        FunctionType::Spacer => Seq::empty(),
    }
}

/// The primitives of a function symbol.
pub open spec fn function_symbol_view(
    rx: int,
    ry: int,
    rw: int,
    rh: int,
    ftype: FunctionType,
    fcolor: FunctionColor,
    fbass: FunctionBass,
    spar: bool,
    epar: bool,
    s: StyleView,
    res: ResourcesView,
) -> Seq<GraphicItemView> {
    let gh = res.text.glyph_height;
    let fs = s.function_scale_milli;
    let ffs = s.function_figure_scale_milli;
    let spar_width: int = if spar {
        s.space()
    } else {
        0
    };
    let p_spar: Seq<GraphicItemView> = if spar {
        seq![
            path_item(
                scaled_moved(
                    font_path(res.text.entries, '('),
                    fs,
                    fs,
                    rx,
                    ry + scale_coord(gh, fs),
                ),
            ),
        ]
    } else {
        Seq::empty()
    };
    let p_letter: Seq<GraphicItemView> = if ftype == FunctionType::Spacer {
        Seq::empty()
    } else {
        seq![
            path_item(
                scaled_moved(
                    function_letter_ops(ftype, res.text),
                    fs,
                    fs,
                    rx + spar_width,
                    ry + scale_coord(gh, fs),
                ),
            ),
        ]
    };
    let spar_width2: int = if ftype == FunctionType::DD {
        spar_width + 20
    } else {
        spar_width
    };
    let p_upper: Seq<GraphicItemView> = if fcolor == FunctionColor::Fc6 || fcolor
        == FunctionColor::Fc64 {
        seq![
            path_item(
                scaled_moved(
                    font_path(res.text.entries, '6'),
                    ffs,
                    ffs,
                    rx + spar_width2 + s.sp(46),
                    ry + scale_coord(gh, ffs) - s.sp(8),
                ),
            ),
        ]
    } else if fcolor == FunctionColor::Fc7 {
        seq![
            path_item(
                scaled_moved(
                    font_path(res.text.entries, '7'),
                    ffs,
                    ffs,
                    rx + spar_width2 + s.sp(46),
                    ry + scale_coord(gh, ffs) - s.sp(8),
                ),
            ),
        ]
    } else {
        Seq::empty()
    };
    let p_lower: Seq<GraphicItemView> = if fcolor == FunctionColor::Fc64 {
        seq![
            path_item(
                scaled_moved(
                    font_path(res.text.entries, '4'),
                    ffs,
                    ffs,
                    rx + spar_width2 + s.sp(46),
                    ry + scale_coord(gh, ffs) + s.space(),
                ),
            ),
        ]
    } else {
        Seq::empty()
    };
    let p_bass: Seq<GraphicItemView> = if fbass == FunctionBass::Fb3 {
        seq![
            path_item(
                scaled_moved(
                    font_path(res.text.entries, '3'),
                    ffs,
                    ffs,
                    rx + spar_width2 + s.sp(16),
                    scale_coord(ry, ffs) + s.sp(52),
                ),
            ),
        ]
    } else {
        Seq::empty()
    };
    let p_epar: Seq<GraphicItemView> = if epar {
        seq![
            path_item(
                scaled_moved(
                    font_path(res.text.entries, ')'),
                    fs,
                    fs,
                    rx + spar_width2 + s.sp(66),
                    ry + scale_coord(gh, fs),
                ),
            ),
        ]
    } else {
        Seq::empty()
    };
    let frame = GraphicItemView::Rect(
        rx,
        ry,
        rw,
        rh,
        StrokeView::Strokestyle(3, Color::Orange),
        Fill::NoFill,
    );
    p_spar + p_letter + p_upper + p_lower + p_bass + p_epar + seq![frame]
}

/// What one positioned shape resolves to at an anchor: the enumerated,
/// per-variant placement rules of the whole symbol set.  Resolution is
/// total; lookup-only markers and placeholders resolve to nothing, and
/// diagnostic rectangles appear only when `dev` is set.  Barline kinds
/// without a drawing rule of their own fall back to the single-barline
/// form, and a naturals key signature to nothing.
pub open spec fn resolve_view(
    n: NRectExtView,
    mx: int,
    my: int,
    s: StyleView,
    res: ResourcesView,
    dev: bool,
) -> Seq<GraphicItemView> {
    let rx = n.rect.x + mx;
    let ry = n.rect.y + my;
    let rw = n.rect.w;
    let rh = n.rect.h;
    match n.kind {
        NRectType::Head(shape) => {
            let outline = match shape {
                HeadShape::BlackHead => res.music.head_black,
                HeadShape::WhiteHead => res.music.head_white,
                HeadShape::WholeHead => res.music.head_whole,
            };
            seq![path_item(moved_glyph(outline, rx, s.half_space() + ry))]
        },
        NRectType::Dotted(_) => seq![
            path_item(
                moved_glyph(res.music.dot, rx + s.quarter_space(), ry + s.quarter_space()),
            ),
        ],
        NRectType::Pause(p) => seq![
            path_item(moved_glyph(pause_glyph(res.music, p), rx, ry + pause_y(s, p))),
        ],
        NRectType::Flag(bt, dir) => match dir {
            DirUD::Up => match bt {
                BeamType::B8 => seq![
                    path_item(moved_glyph(res.music.flag_eighth_up, rx - s.flag_x_adjust, ry)),
                ],
                BeamType::B16 => seq![
                    path_item(moved_glyph(res.music.flag_sixteenth_up, rx - s.flag_x_adjust, ry)),
                ],
                BeamType::B32 => Seq::empty(),
            },
            DirUD::Down => match bt {
                BeamType::B8 => seq![
                    path_item(
                        moved_glyph(
                            res.music.flag_eighth_down,
                            rx - s.flag_x_adjust,
                            ry + 3 * s.space(),
                        ),
                    ),
                ],
                BeamType::B16 => seq![
                    path_item(
                        moved_glyph(
                            res.music.flag_sixteenth_down,
                            rx - s.flag_x_adjust,
                            ry + 3 * s.space(),
                        ),
                    ),
                ],
                BeamType::B32 => Seq::empty(),
            },
        },
        NRectType::TplSymbol(figure) => {
            let circle = move_path_spec(
                scale_path_spec(
                    res.music.tpl_circle,
                    s.tpl_circle_scale_milli,
                    s.tpl_circle_scale_milli,
                ),
                rx - s.sp(118),
                ry,
            );
            let fig = scaled_moved(
                font_path(res.labels.entries, figure),
                s.tpl_figure_scale_milli,
                s.tpl_figure_scale_milli,
                rx + s.sp(17),
                ry + s.sp(44),
            );
            seq![path_item(circle + fig)]
        },
        NRectType::Clef(clef) => match clef {
            Clef::G => seq![path_item(moved_glyph(res.music.clef_g, rx, ry + s.sp(92)))],
            Clef::F => seq![path_item(moved_glyph(res.music.clef_f, rx, ry + s.space()))],
            Clef::C => seq![path_item(moved_glyph(res.music.clef_c, rx, ry + 2 * s.space()))],
        },
        NRectType::KeySignature(key) => match key {
            Key::Sharps(n_acc) => seq![
                path_item(move_path_spec(sharps_ops(res.music, s, n_acc), rx, ry + s.sp(70))),
            ],
            Key::Flats(n_acc) => seq![
                path_item(move_path_spec(flats_ops(res.music, s, n_acc), rx, ry + s.sp(70))),
            ],
            Key::Open => Seq::empty(),
            Key::Naturals(_) => Seq::empty(),
        },
        NRectType::TimeSignature(t) => seq![
            path_item(move_path_spec(time_signature_ops(res.music, s, t), rx, ry + s.sp(60))),
        ],
        NRectType::Barline(bt) => match bt {
            BarlineType::Double => {
                let quad = seq![
                    PathSegmentView::M(rx, ry),
                    PathSegmentView::L(rx + s.barline_width_single, ry),
                    PathSegmentView::L(rx + s.barline_width_single, ry + rh),
                    PathSegmentView::L(rx, ry + rh),
                ];
                let quad2 = move_path_spec(
                    quad,
                    s.barline_double_space - s.barline_width_single,
                    0,
                );
                seq![path_item(quad + quad2)]
            },
            BarlineType::FraseTick => seq![
                GraphicItemView::Line(
                    rx,
                    ry + s.half_space(),
                    rx + s.half_space(),
                    ry - s.space(),
                    StrokeView::Strokestyle(4, Color::Black),
                ),
            ],
            _ => seq![
                GraphicItemView::Rect(
                    rx + (rw - s.barline_width_single),
                    ry,
                    rw,
                    rh,
                    StrokeView::NoStroke,
                    Fill::Fillstyle(Color::Black),
                ),
            ],
        },
        NRectType::Accidental(a) => seq![
            path_item(moved_glyph(accidental_glyph(res.music, a), rx, ry + accidental_y(s, a))),
        ],
        NRectType::Wip => Seq::empty(),
        NRectType::ColorRect(c) => seq![
            GraphicItemView::Rect(
                rx,
                ry,
                rw,
                rh,
                StrokeView::NoStroke,
                Fill::Fillstyle(color_of(c)),
            ),
        ],
        NRectType::StrokeRect(c) => seq![
            GraphicItemView::Rect(
                rx,
                ry,
                rw,
                rh,
                StrokeView::Strokestyle(1, color_of(c)),
                Fill::NoFill,
            ),
        ],
        NRectType::TieFrom(_, _, ttype, _, _, _, _) => match ttype {
            TieFromType::Standard => if dev {
                seq![
                    GraphicItemView::Rect(
                        rx,
                        ry,
                        rw,
                        rh,
                        StrokeView::NoStroke,
                        Fill::Fillstyle(Color::Green),
                    ),
                ]
            } else {
                Seq::empty()
            },
            TieFromType::LetRing => seq![
                GraphicItemView::Rect(
                    rx,
                    ry,
                    rw,
                    rh,
                    StrokeView::NoStroke,
                    Fill::Fillstyle(Color::LightGray),
                ),
            ],
            TieFromType::UnresolvedInChunk => seq![
                GraphicItemView::Rect(
                    rx,
                    ry,
                    rw,
                    rh,
                    StrokeView::NoStroke,
                    Fill::Fillstyle(Color::Red),
                ),
            ],
        },
        NRectType::TieTo(ttype) => match ttype {
            TieToType::ResolveTieFrom(_, _) => if dev {
                seq![
                    GraphicItemView::Rect(
                        rx,
                        ry,
                        rw,
                        rh,
                        StrokeView::NoStroke,
                        Fill::Fillstyle(Color::Lime),
                    ),
                ]
            } else {
                Seq::empty()
            },
            TieToType::LetRing => seq![
                GraphicItemView::Rect(
                    rx,
                    ry,
                    rw,
                    rh,
                    StrokeView::NoStroke,
                    Fill::Fillstyle(Color::Gray),
                ),
            ],
        },
        NRectType::HelpLine => seq![
            GraphicItemView::Rect(
                rx,
                ry,
                rw,
                rh,
                StrokeView::NoStroke,
                Fill::Fillstyle(Color::Black),
            ),
        ],
        NRectType::LyricChar(c) => {
            let sc = s.lyrics_scale_milli;
            seq![
                path_item(
                    scaled_moved(
                        font_path(res.text.entries, c),
                        sc,
                        sc,
                        rx,
                        ry + scale_coord(res.text.glyph_height, sc),
                    ),
                ),
            ]
        },
        NRectType::Dev(ellipse, c) => if dev {
            if ellipse {
                seq![
                    GraphicItemView::Ellipse(
                        rx,
                        ry,
                        rw,
                        rh,
                        StrokeView::Strokestyle(1, color_of(c)),
                        Fill::NoFill,
                    ),
                ]
            } else {
                seq![
                    GraphicItemView::Rect(
                        rx,
                        ry,
                        rw,
                        rh,
                        StrokeView::Strokestyle(1, color_of(c)),
                        Fill::NoFill,
                    ),
                ]
            }
        } else {
            Seq::empty()
        },
        NRectType::Dummy => Seq::empty(),
        NRectType::Spacer => Seq::empty(),
        NRectType::LineFrom(_, _, _) => seq![
            GraphicItemView::Rect(
                rx,
                ry,
                rw,
                rh,
                StrokeView::NoStroke,
                Fill::Fillstyle(Color::Orange),
            ),
        ],
        NRectType::LineTo(_, _, _) => Seq::empty(),
        NRectType::ChordSymbol(root, flavour, color, bass) => chord_symbol_view(
            rx,
            ry,
            root,
            flavour,
            color,
            bass,
            s,
            res,
        ),
        NRectType::FunctionSymbol(ftype, fcolor, fbass, spar, epar) => function_symbol_view(
            rx,
            ry,
            rw,
            rh,
            ftype,
            fcolor,
            fbass,
            spar,
            epar,
            s,
            res,
        ),
    }
}

/// A glyph outline flipped and translated, as raw path operations.
fn glyph_ops(outline: &Vec<PathSegment>, mx: i64, my: i64) -> (r: Vec<PathSegment>)
    requires
        outline_within(outline.deep_view(), COORD_LIMIT as int),
        -1000000 <= mx <= 1000000,
        -1000000 <= my <= 1000000,
    ensures
        r.deep_view() == moved_glyph(outline.deep_view(), mx as int, my as int),
        outline_within(r.deep_view(), 2000000),
{
    proof {
        lemma_inv01_within(outline.deep_view(), COORD_LIMIT as int);
        crate::paths::lemma_outline_widen(
            inv01_spec(outline.deep_view()),
            COORD_LIMIT as int,
            1000000000000,
        );
    }
    let f = inv01(outline);
    let r = move_path(&f, mx, my);
    proof {
        lemma_move_within(inv01_spec(outline.deep_view()), COORD_LIMIT as int, mx as int, my as int, 1000000);
    }
    r
}

/// A glyph outline flipped, translated and wrapped as a filled path.
fn glyph_item(outline: &Vec<PathSegment>, mx: i64, my: i64) -> (r: GraphicItem)
    requires
        outline_within(outline.deep_view(), COORD_LIMIT as int),
        -100000000 <= mx <= 100000000,
        -100000000 <= my <= 100000000,
    ensures
        r@ == path_item(moved_glyph(outline.deep_view(), mx as int, my as int)),
{
    proof {
        lemma_inv01_within(outline.deep_view(), COORD_LIMIT as int);
        crate::paths::lemma_outline_widen(
            inv01_spec(outline.deep_view()),
            COORD_LIMIT as int,
            1000000000000,
        );
    }
    let f = inv01(outline);
    let m = move_path(&f, mx, my);
    GraphicItem::Path(m, Stroke::NoStroke, Fill::Fillstyle(Color::Black), PathCacheInfo::NoCache)
}

/// A font outline scaled and translated, as raw path operations.
fn scaled_ops(outline: &Vec<PathSegment>, sx: i64, sy: i64, mx: i64, my: i64) -> (r: Vec<
    PathSegment,
>)
    requires
        outline_within(outline.deep_view(), 2000000),
        -10000 <= sx <= 10000,
        -10000 <= sy <= 10000,
        -100000000 <= mx <= 100000000,
        -100000000 <= my <= 100000000,
    ensures
        r.deep_view() == scaled_moved(
            outline.deep_view(),
            sx as int,
            sy as int,
            mx as int,
            my as int,
        ),
        outline_within(r.deep_view(), 120000000),
{
    proof {
        crate::paths::lemma_outline_widen(outline.deep_view(), 2000000, 100000000);
    }
    let ghost before = outline.deep_view();
    let sc = scale_path(outline, sx, sy);
    proof {
        lemma_scale_within(before, 2000000, sx as int, sy as int);
        crate::paths::lemma_outline_widen(sc.deep_view(), 20000000, 1000000000000);
    }
    let r = move_path(&sc, mx, my);
    proof {
        lemma_move_within(sc.deep_view(), 20000000, mx as int, my as int, 100000000);
    }
    r
}

/// A font outline scaled, translated and wrapped as a filled path.
fn scaled_item(outline: &Vec<PathSegment>, sx: i64, sy: i64, mx: i64, my: i64) -> (r: GraphicItem)
    requires
        outline_within(outline.deep_view(), 2000000),
        -10000 <= sx <= 10000,
        -10000 <= sy <= 10000,
        -100000000 <= mx <= 100000000,
        -100000000 <= my <= 100000000,
    ensures
        r@ == path_item(
            scaled_moved(outline.deep_view(), sx as int, sy as int, mx as int, my as int),
        ),
{
    let ops = scaled_ops(outline, sx, sy, mx, my);
    GraphicItem::Path(ops, Stroke::NoStroke, Fill::Fillstyle(Color::Black), PathCacheInfo::NoCache)
}

/// A font lookup with its outline bound.
fn text_path(font: &crate::fonts::Font, c: char) -> (r: Vec<PathSegment>)
    requires
        font@.wf(),
    ensures
        r.deep_view() == font_path(font@.entries, c),
        crate::fonts::outline_ok(r.deep_view()),
{
    proof {
        crate::fonts::lemma_font_path_ok(font@.entries, c);
    }
    font.get_path(c)
}

/// A font character scaled, translated and wrapped as a filled path.
pub(crate) fn scaled_text_item(
    font: &crate::fonts::Font,
    c: char,
    sx: i64,
    sy: i64,
    mx: i64,
    my: i64,
) -> (r: GraphicItem)
    requires
        font@.wf(),
        -10000 <= sx <= 10000,
        -10000 <= sy <= 10000,
        -100000000 <= mx <= 100000000,
        -100000000 <= my <= 100000000,
    ensures
        r@ == path_item(
            scaled_moved(font_path(font@.entries, c), sx as int, sy as int, mx as int, my as int),
        ),
{
    let p = text_path(font, c);
    proof {
        crate::paths::lemma_outline_widen(p.deep_view(), COORD_LIMIT as int, 2000000);
    }
    scaled_item(&p, sx, sy, mx, my)
}

/// A table outline scaled, translated and wrapped as a filled path.
fn scaled_glyph_item(
    outline: &Vec<PathSegment>,
    sx: i64,
    sy: i64,
    mx: i64,
    my: i64,
) -> (r: GraphicItem)
    requires
        crate::fonts::outline_ok(outline.deep_view()),
        -10000 <= sx <= 10000,
        -10000 <= sy <= 10000,
        -100000000 <= mx <= 100000000,
        -100000000 <= my <= 100000000,
    ensures
        r@ == path_item(
            scaled_moved(outline.deep_view(), sx as int, sy as int, mx as int, my as int),
        ),
{
    proof {
        crate::paths::lemma_outline_widen(outline.deep_view(), COORD_LIMIT as int, 2000000);
    }
    scaled_item(outline, sx, sy, mx, my)
}

/// Nine tenths of a scale factor, the reduced size of a sharp sign.
fn scale_nine_tenths(milli: i64) -> (r: i64)
    requires
        -10000 <= milli <= 10000,
    ensures
        r == div_trunc(milli * 9, 10),
        -9000 <= r <= 9000,
{
    let r = div_trunc_i64(milli * 9, 10);
    proof {
        if milli * 9 >= 0 {
            vstd::arithmetic::div_mod::lemma_div_is_ordered(milli * 9, 90000, 10);
            assert(90000int / 10 == 9000);
        } else {
            vstd::arithmetic::div_mod::lemma_div_is_ordered(-(milli * 9), 90000, 10);
            assert(90000int / 10 == 9000);
        }
    }
    r
}

/// A font's glyph height under a scale factor, with its bound.
fn scaled_height(gh: i64, milli: i64) -> (r: i64)
    requires
        0 <= gh <= 100000,
        -10000 <= milli <= 10000,
    ensures
        r == scale_coord(gh as int, milli as int),
        -1000000 <= r <= 1000000,
{
    proof {
        crate::paths::lemma_scale_coord_within(gh as int, milli as int, 100000);
    }
    crate::paths::scale_coord_i64(gh, milli)
}

/// The accumulated sharp glyph operations of a key signature.
#[verifier::rlimit(100)]
#[verifier::spinoff_prover]
fn sharps_ops_exec(n: u8, style: &Style, music: &crate::fonts::GlyphStore) -> (r: Vec<
    PathSegment,
>)
    requires
        style@.wf(),
        music@.wf(),
    ensures
        r.deep_view() == sharps_ops(music@, style@, n),
        outline_within(r.deep_view(), 2000000),
{
    let step = style.space_step;
    proof {
        assert(1 <= step <= 1000);
    }
    let aw = style.accidental_width_sharp;
    let dy1: i64 = -(40 * step);
    let dy2: i64 = -(10 * step);
    let dy3: i64 = -(50 * step);
    let dy4: i64 = -(20 * step);
    let dy5: i64 = -(60 * step);
    let dy6: i64 = -(30 * step);
    let aw2: i64 = aw * 2;
    let aw3: i64 = aw * 3;
    let aw4: i64 = aw * 4;
    let aw5: i64 = aw * 5;
    let mut ops = glyph_ops(&music.accidental_sharp, 0, dy1);
    if n >= 2 {
        let g = glyph_ops(&music.accidental_sharp, aw, dy2);
        proof {
            crate::paths::lemma_outline_concat(ops.deep_view(), g.deep_view(), 2000000);
        }
        append_items(&mut ops, g);
    }
    if n >= 3 {
        let g = glyph_ops(&music.accidental_sharp, aw2, dy3);
        proof {
            crate::paths::lemma_outline_concat(ops.deep_view(), g.deep_view(), 2000000);
        }
        append_items(&mut ops, g);
    }
    if n >= 4 {
        let g = glyph_ops(&music.accidental_sharp, aw3, dy4);
        proof {
            crate::paths::lemma_outline_concat(ops.deep_view(), g.deep_view(), 2000000);
        }
        append_items(&mut ops, g);
    }
    if n >= 5 {
        let g = glyph_ops(&music.accidental_sharp, aw4, dy5);
        proof {
            crate::paths::lemma_outline_concat(ops.deep_view(), g.deep_view(), 2000000);
        }
        append_items(&mut ops, g);
    }
    if n >= 6 {
        let g = glyph_ops(&music.accidental_sharp, aw5, dy6);
        proof {
            crate::paths::lemma_outline_concat(ops.deep_view(), g.deep_view(), 2000000);
        }
        append_items(&mut ops, g);
    }
    ops
}

/// The accumulated flat glyph operations of a key signature.
#[verifier::rlimit(100)]
#[verifier::spinoff_prover]
fn flats_ops_exec(n: u8, style: &Style, music: &crate::fonts::GlyphStore) -> (r: Vec<
    PathSegment,
>)
    requires
        style@.wf(),
        music@.wf(),
    ensures
        r.deep_view() == flats_ops(music@, style@, n),
        outline_within(r.deep_view(), 2000000),
{
    let step = style.space_step;
    proof {
        assert(1 <= step <= 1000);
    }
    let aw = style.accidental_width_flat;
    let dy1: i64 = -(30 * step);
    let dy2: i64 = 10 * step;
    let dy3: i64 = -(20 * step);
    let dy4: i64 = 20 * step;
    let dy5: i64 = -(10 * step);
    let aw2: i64 = aw * 2;
    let aw3: i64 = aw * 3;
    let aw4: i64 = aw * 4;
    let aw5: i64 = aw * 5;
    proof {
        lemma_inv01_within(music@.accidental_flat, COORD_LIMIT as int);
        crate::paths::lemma_outline_widen(
            music@.accidental_flat,
            COORD_LIMIT as int,
            1000000000000,
        );
    }
    let mut ops = inv01(&music.accidental_flat);
    proof {
        crate::paths::lemma_outline_widen(ops.deep_view(), COORD_LIMIT as int, 2000000);
    }
    if n >= 2 {
        let g = glyph_ops(&music.accidental_flat, aw, dy1);
        proof {
            crate::paths::lemma_outline_concat(ops.deep_view(), g.deep_view(), 2000000);
        }
        append_items(&mut ops, g);
    }
    if n >= 3 {
        let g = glyph_ops(&music.accidental_flat, aw2, dy2);
        proof {
            crate::paths::lemma_outline_concat(ops.deep_view(), g.deep_view(), 2000000);
        }
        append_items(&mut ops, g);
    }
    if n >= 4 {
        let g = glyph_ops(&music.accidental_flat, aw3, dy3);
        proof {
            crate::paths::lemma_outline_concat(ops.deep_view(), g.deep_view(), 2000000);
        }
        append_items(&mut ops, g);
    }
    if n >= 5 {
        let g = glyph_ops(&music.accidental_flat, aw4, dy4);
        proof {
            crate::paths::lemma_outline_concat(ops.deep_view(), g.deep_view(), 2000000);
        }
        append_items(&mut ops, g);
    }
    if n >= 6 {
        let g = glyph_ops(&music.accidental_flat, aw5, dy5);
        proof {
            crate::paths::lemma_outline_concat(ops.deep_view(), g.deep_view(), 2000000);
        }
        append_items(&mut ops, g);
    }
    ops
}

/// The primitives of a key signature at its anchor.
#[verifier::rlimit(100)]
fn key_signature_items(
    key: Key,
    rx: i64,
    ry: i64,
    style: &Style,
    music: &crate::fonts::GlyphStore,
) -> (r: Vec<GraphicItem>)
    requires
        style@.wf(),
        music@.wf(),
        -2000000 <= rx <= 2000000,
        -2000000 <= ry <= 2000000,
    ensures
        r.deep_view() == match key {
            Key::Sharps(n) => seq![
                path_item(
                    move_path_spec(
                        sharps_ops(music@, style@, n),
                        rx as int,
                        ry + style@.sp(70),
                    ),
                ),
            ],
            Key::Flats(n) => seq![
                path_item(
                    move_path_spec(flats_ops(music@, style@, n), rx as int, ry + style@.sp(70)),
                ),
            ],
            Key::Open => Seq::<GraphicItemView>::empty(),
            Key::Naturals(_) => Seq::<GraphicItemView>::empty(),
        },
{
    let step = style.space_step;
    proof {
        assert(1 <= step <= 1000);
    }
    match key {
        Key::Sharps(n) => {
            let ops = sharps_ops_exec(n, style, music);
            proof {
                crate::paths::lemma_outline_widen(ops.deep_view(), 2000000, 1000000000000);
            }
            let moved = move_path(&ops, rx, ry + 70 * step);
            one_item(
                GraphicItem::Path(
                    moved,
                    Stroke::NoStroke,
                    Fill::Fillstyle(Color::Black),
                    PathCacheInfo::NoCache,
                ),
            )
        },
        Key::Flats(n) => {
            let ops = flats_ops_exec(n, style, music);
            proof {
                crate::paths::lemma_outline_widen(ops.deep_view(), 2000000, 1000000000000);
            }
            let moved = move_path(&ops, rx, ry + 70 * step);
            one_item(
                GraphicItem::Path(
                    moved,
                    Stroke::NoStroke,
                    Fill::Fillstyle(Color::Black),
                    PathCacheInfo::NoCache,
                ),
            )
        },
        Key::Open => no_items(),
        Key::Naturals(_) => no_items(),
    }
}

/// The primitives of a time signature at its anchor.
#[verifier::rlimit(100)]
fn time_signature_items(
    t: Time,
    rx: i64,
    ry: i64,
    style: &Style,
    music: &crate::fonts::GlyphStore,
) -> (r: Vec<GraphicItem>)
    requires
        style@.wf(),
        music@.wf(),
        -2000000 <= rx <= 2000000,
        -2000000 <= ry <= 2000000,
    ensures
        r.deep_view() == seq![
            path_item(
                move_path_spec(
                    time_signature_ops(music@, style@, t),
                    rx as int,
                    ry + style@.sp(60),
                ),
            ),
        ],
{
    let step = style.space_step;
    let mut ops: Vec<PathSegment>;
    match t {
        Time::Common => {
            proof {
                lemma_inv01_within(music@.time_common, COORD_LIMIT as int);
                crate::paths::lemma_outline_widen(
                    music@.time_common,
                    COORD_LIMIT as int,
                    1000000000000,
                );
            }
            ops = inv01(&music.time_common);
            proof {
                crate::paths::lemma_outline_widen(ops.deep_view(), COORD_LIMIT as int, 2000000);
            }
        },
        Time::Cut => {
            proof {
                lemma_inv01_within(music@.time_cut, COORD_LIMIT as int);
                crate::paths::lemma_outline_widen(
                    music@.time_cut,
                    COORD_LIMIT as int,
                    1000000000000,
                );
            }
            ops = inv01(&music.time_cut);
            proof {
                crate::paths::lemma_outline_widen(ops.deep_view(), COORD_LIMIT as int, 2000000);
            }
        },
        Time::Standard(nom, denom) => {
            let xd: i64 = if nom == TimeNominator::Three {
                5
            } else {
                0
            };
            let dg = match denom {
                TimeDenominator::Wholes => &music.number_one,
                TimeDenominator::Halves => &music.number_two,
                TimeDenominator::Quarters => &music.number_four,
                TimeDenominator::Eighths => &music.number_eight,
                TimeDenominator::Sixteenths => &music.number_four,
            };
            ops = glyph_ops(dg, xd, 20 * step);
            let xn: i64 = if denom == TimeDenominator::Halves {
                5
            } else {
                0
            };
            let nops = match nom {
                TimeNominator::One => glyph_ops(&music.number_one, xn, -(20 * step)),
                TimeNominator::Two => glyph_ops(&music.number_two, xn, -(20 * step)),
                TimeNominator::Three => glyph_ops(&music.number_three, xn + 6, -(20 * step)),
                TimeNominator::Six => glyph_ops(&music.number_six, xn, -(20 * step)),
                TimeNominator::Nine => glyph_ops(&music.number_nine, xn, -(20 * step)),
                TimeNominator::Twelve => {
                    let mut a = glyph_ops(&music.number_one, xn, -(20 * step));
                    let b = glyph_ops(&music.number_two, 20 * step, -(20 * step));
                    proof {
                        crate::paths::lemma_outline_concat(a.deep_view(), b.deep_view(), 2000000);
                    }
                    append_items(&mut a, b);
                    a
                },
                _ => glyph_ops(&music.number_four, xn, -(20 * step)),
            };
            proof {
                crate::paths::lemma_outline_concat(ops.deep_view(), nops.deep_view(), 2000000);
            }
            append_items(&mut ops, nops);
        },
    }
    proof {
        assert(ops.deep_view() == time_signature_ops(music@, style@, t));
        crate::paths::lemma_outline_widen(ops.deep_view(), 2000000, 1000000000000);
    }
    let moved = move_path(&ops, rx, ry + 60 * step);
    one_item(
        GraphicItem::Path(
            moved,
            Stroke::NoStroke,
            Fill::Fillstyle(Color::Black),
            PathCacheInfo::NoCache,
        ),
    )
}

/// The advance width of a chord root or bass letter.
fn chord_letter_advance_i64(c: char, bass: bool) -> (r: i64)
    ensures
        r == chord_letter_advance(c, bass),
        50 <= r <= 60,
{
    if c == 'G' || c == 'D' {
        60
    } else if c == 'A' || c == 'B' {
        55
    } else if bass {
        52
    } else {
        50
    }
}

/// The root letter of a chord symbol.
#[verifier::rlimit(100)]
#[verifier::spinoff_prover]
fn chord_root_items(root: ChordRoot, rx: i64, ry: i64, style: &Style, res: &Resources) -> (r: Vec<
    GraphicItem,
>)
    requires
        1 <= style@.space_step <= 1000,
        0 <= style@.chord_margin <= 100000,
        -10000 <= style@.chord_scale_milli <= 10000,
        -10000 <= style@.chord_accidental_scale_milli <= 10000,
        -10000 <= style@.chord_figure_scale_milli <= 10000,
        res@.text.wf(),
        crate::fonts::outline_ok(res@.music.accidental_sharp),
        crate::fonts::outline_ok(res@.music.accidental_flat),
        -2000000 <= rx <= 2000000,
        -2000000 <= ry <= 2000000,
    ensures
        r.deep_view() == chord_root_part(root, rx as int, ry as int, style@, res@),
{
    let cs = style.chord_scale_milli;
    let x = div_trunc_i64(style.chord_margin, 2);
    let ghs_cs = scaled_height(res.text.glyph_height, cs);
    if matches!(root, ChordRoot::Omitted) {
        no_items()
    } else {
        one_item(scaled_text_item(&res.text, root.get_char(), cs, cs, rx + x, ry + ghs_cs))
    }
}

/// The accidental sign behind the root letter.
#[verifier::rlimit(100)]
#[verifier::spinoff_prover]
fn chord_root_sign_items(
    root: ChordRoot,
    rx: i64,
    ry: i64,
    style: &Style,
    res: &Resources,
) -> (r: Vec<GraphicItem>)
    requires
        1 <= style@.space_step <= 1000,
        0 <= style@.chord_margin <= 100000,
        -10000 <= style@.chord_scale_milli <= 10000,
        -10000 <= style@.chord_accidental_scale_milli <= 10000,
        -10000 <= style@.chord_figure_scale_milli <= 10000,
        res@.text.wf(),
        crate::fonts::outline_ok(res@.music.accidental_sharp),
        crate::fonts::outline_ok(res@.music.accidental_flat),
        -2000000 <= rx <= 2000000,
        -2000000 <= ry <= 2000000,
    ensures
        r.deep_view() == chord_root_sign_part(root, rx as int, ry as int, style@, res@),
{
    let step = style.space_step;
    let cs = style.chord_scale_milli;
    let cs9 = scale_nine_tenths(cs);
    let x = div_trunc_i64(style.chord_margin, 2);
    let ghs_cs = scaled_height(res.text.glyph_height, cs);
    let w1 = if matches!(root, ChordRoot::Omitted) {
        0
    } else {
        chord_letter_advance_i64(root.get_char(), false)
    };
    proof {
        assert(w1 == chord_w1(root));
    }
    if !matches!(root, ChordRoot::Omitted) && root.is_flat() {
        one_item(
            scaled_glyph_item(
                &res.music.accidental_flat,
                cs,
                -cs,
                rx + x + w1,
                ry + ghs_cs - 26 * step,
            ),
        )
    } else if !matches!(root, ChordRoot::Omitted) && root.is_sharp() {
        one_item(
            scaled_glyph_item(
                &res.music.accidental_sharp,
                cs9,
                -cs9,
                rx + x + w1,
                ry + ghs_cs - 32 * step,
            ),
        )
    } else {
        no_items()
    }
}

/// The minor-flavour letter of a chord symbol.
#[verifier::rlimit(100)]
#[verifier::spinoff_prover]
fn chord_flavour_items(
    root: ChordRoot,
    flavour: ChordFlavour,
    rx: i64,
    ry: i64,
    style: &Style,
    res: &Resources,
) -> (r: Vec<GraphicItem>)
    requires
        1 <= style@.space_step <= 1000,
        0 <= style@.chord_margin <= 100000,
        -10000 <= style@.chord_scale_milli <= 10000,
        -10000 <= style@.chord_accidental_scale_milli <= 10000,
        -10000 <= style@.chord_figure_scale_milli <= 10000,
        res@.text.wf(),
        crate::fonts::outline_ok(res@.music.accidental_sharp),
        crate::fonts::outline_ok(res@.music.accidental_flat),
        -2000000 <= rx <= 2000000,
        -2000000 <= ry <= 2000000,
    ensures
        r.deep_view() == chord_flavour_part(root, flavour, rx as int, ry as int, style@, res@),
{
    let cs = style.chord_scale_milli;
    let x = div_trunc_i64(style.chord_margin, 2);
    let ghs_cs = scaled_height(res.text.glyph_height, cs);
    let w2 = chord_w2_exec(root);
    if matches!(flavour, ChordFlavour::Minor) {
        one_item(scaled_text_item(&res.text, 'm', cs, cs, rx + x + w2, ry + ghs_cs))
    } else {
        no_items()
    }
}

/// The cursor after the root's accidental sign.
fn chord_w2_exec(root: ChordRoot) -> (r: i64)
    ensures
        r == chord_w2(root),
        0 <= r <= 90,
{
    let w1: i64 = if matches!(root, ChordRoot::Omitted) {
        0
    } else {
        chord_letter_advance_i64(root.get_char(), false)
    };
    if !matches!(root, ChordRoot::Omitted) && (root.is_flat() || root.is_sharp()) {
        w1 + 30
    } else {
        w1
    }
}

/// The cursor after the flavour letter.
fn chord_w3_exec(root: ChordRoot, flavour: ChordFlavour) -> (r: i64)
    ensures
        r == chord_w3(root, flavour),
        0 <= r <= 170,
{
    let w2 = chord_w2_exec(root);
    if matches!(flavour, ChordFlavour::Minor) {
        w2 + 80
    } else {
        w2
    }
}

/// The cursor after the colour's sign.
fn chord_w4_exec(root: ChordRoot, flavour: ChordFlavour, color: ChordColor) -> (r: i64)
    ensures
        r == chord_w4(root, flavour, color),
        0 <= r <= 245,
{
    let w3 = chord_w3_exec(root, flavour);
    let pre: i64 = match color {
        ChordColor::PlusFive => 15,
        ChordColor::MinusNine => 15,
        ChordColor::SusTwo | ChordColor::SusFour | ChordColor::MajSeven => 75,
        _ => 0,
    };
    if !matches!(color, ChordColor::Plain) {
        w3 + pre
    } else {
        w3
    }
}

/// The cursor after the colour's figure.
fn chord_w5_exec(root: ChordRoot, flavour: ChordFlavour, color: ChordColor) -> (r: i64)
    ensures
        r == chord_w5(root, flavour, color),
        0 <= r <= 270,
{
    let w4 = chord_w4_exec(root, flavour, color);
    let has_figure = match color {
        ChordColor::SusTwo | ChordColor::SusFour | ChordColor::Five | ChordColor::PlusFive
            | ChordColor::Six | ChordColor::Seven | ChordColor::MajSeven | ChordColor::MinusNine
            | ChordColor::Nine | ChordColor::PlusNine => true,
        ChordColor::Plain => false,
    };
    if !matches!(color, ChordColor::Plain) && has_figure {
        w4 + 25
    } else {
        w4
    }
}

/// The colour's sign glyphs.
#[verifier::rlimit(100)]
#[verifier::spinoff_prover]
fn chord_color_sign_items(
    root: ChordRoot,
    flavour: ChordFlavour,
    color: ChordColor,
    rx: i64,
    ry: i64,
    style: &Style,
    res: &Resources,
) -> (r: Vec<GraphicItem>)
    requires
        1 <= style@.space_step <= 1000,
        0 <= style@.chord_margin <= 100000,
        -10000 <= style@.chord_scale_milli <= 10000,
        -10000 <= style@.chord_accidental_scale_milli <= 10000,
        -10000 <= style@.chord_figure_scale_milli <= 10000,
        res@.text.wf(),
        crate::fonts::outline_ok(res@.music.accidental_sharp),
        crate::fonts::outline_ok(res@.music.accidental_flat),
        -2000000 <= rx <= 2000000,
        -2000000 <= ry <= 2000000,
    ensures
        r.deep_view() == chord_color_sign_part(
            root,
            flavour,
            color,
            rx as int,
            ry as int,
            style@,
            res@,
        ),
{
    let step = style.space_step;
    let cas = style.chord_accidental_scale_milli;
    let cfs = style.chord_figure_scale_milli;
    let x = div_trunc_i64(style.chord_margin, 2);
    let ghs_cas = scaled_height(res.text.glyph_height, cas);
    let ghs_cfs = scaled_height(res.text.glyph_height, cfs);
    let cx = rx + x + chord_w3_exec(root, flavour);
    if matches!(color, ChordColor::PlusFive) {
        one_item(
            scaled_glyph_item(&res.music.accidental_sharp, cas, -cas, cx, ry + ghs_cas - 14 * step),
        )
    } else if matches!(color, ChordColor::MinusNine) {
        one_item(
            scaled_glyph_item(&res.music.accidental_flat, cas, -cas, cx, ry + ghs_cas - 14 * step),
        )
    } else if matches!(color, ChordColor::SusTwo) || matches!(color, ChordColor::SusFour) {
        let mut v = one_item(
            scaled_text_item(&res.text, 's', cfs, cfs, cx, ry + ghs_cfs - 6 * step),
        );
        push_item(
            &mut v,
            scaled_text_item(&res.text, 'u', cfs, cfs, cx + 22, ry + ghs_cfs - 6 * step),
        );
        push_item(
            &mut v,
            scaled_text_item(&res.text, 's', cfs, cfs, cx + 49, ry + ghs_cfs - 6 * step),
        );
        proof {
            assert(v.deep_view() =~= chord_color_sign_part(
                root,
                flavour,
                color,
                rx as int,
                ry as int,
                style@,
                res@,
            ));
        }
        v
    } else if matches!(color, ChordColor::MajSeven) {
        let mut v = one_item(
            scaled_text_item(&res.text, 'm', cfs, cfs, cx - 5, ry + ghs_cfs - 6 * step),
        );
        push_item(
            &mut v,
            scaled_text_item(&res.text, 'a', cfs, cfs, cx + 40, ry + ghs_cfs - 6 * step),
        );
        push_item(
            &mut v,
            scaled_text_item(&res.text, 'j', cfs, cfs, cx + 65, ry + ghs_cfs - 6 * step),
        );
        proof {
            assert(v.deep_view() =~= chord_color_sign_part(
                root,
                flavour,
                color,
                rx as int,
                ry as int,
                style@,
                res@,
            ));
        }
        v
    } else {
        no_items()
    }
}

/// The colour's figure digit.
#[verifier::rlimit(100)]
#[verifier::spinoff_prover]
fn chord_color_figure_items(
    root: ChordRoot,
    flavour: ChordFlavour,
    color: ChordColor,
    rx: i64,
    ry: i64,
    style: &Style,
    res: &Resources,
) -> (r: Vec<GraphicItem>)
    requires
        1 <= style@.space_step <= 1000,
        0 <= style@.chord_margin <= 100000,
        -10000 <= style@.chord_scale_milli <= 10000,
        -10000 <= style@.chord_accidental_scale_milli <= 10000,
        -10000 <= style@.chord_figure_scale_milli <= 10000,
        res@.text.wf(),
        crate::fonts::outline_ok(res@.music.accidental_sharp),
        crate::fonts::outline_ok(res@.music.accidental_flat),
        -2000000 <= rx <= 2000000,
        -2000000 <= ry <= 2000000,
    ensures
        r.deep_view() == chord_color_figure_part(
            root,
            flavour,
            color,
            rx as int,
            ry as int,
            style@,
            res@,
        ),
{
    let step = style.space_step;
    let cfs = style.chord_figure_scale_milli;
    let x = div_trunc_i64(style.chord_margin, 2);
    let ghs_cfs = scaled_height(res.text.glyph_height, cfs);
    let w4 = chord_w4_exec(root, flavour, color);
    let has_figure = match color {
        ChordColor::SusTwo | ChordColor::SusFour | ChordColor::Five | ChordColor::PlusFive
            | ChordColor::Six | ChordColor::Seven | ChordColor::MajSeven | ChordColor::MinusNine
            | ChordColor::Nine | ChordColor::PlusNine => true,
        ChordColor::Plain => false,
    };
    if !matches!(color, ChordColor::Plain) && has_figure {
        let figure = match color {
            ChordColor::SusTwo => '2',
            ChordColor::SusFour => '4',
            ChordColor::Five => '5',
            ChordColor::PlusFive => '5',
            ChordColor::Six => '6',
            ChordColor::MinusNine => '9',
            ChordColor::Nine => '9',
            ChordColor::PlusNine => '9',
            ChordColor::Seven => '7',
            ChordColor::MajSeven => '7',
            ChordColor::Plain => ' ',
        };
        one_item(
            scaled_text_item(&res.text, figure, cfs, cfs, rx + x + w4, ry + ghs_cfs - 8 * step),
        )
    } else {
        no_items()
    }
}

/// The bass slash, letter and sign of a chord symbol.
#[verifier::rlimit(100)]
#[verifier::spinoff_prover]
fn chord_bass_items(
    root: ChordRoot,
    flavour: ChordFlavour,
    color: ChordColor,
    bass: ChordRoot,
    rx: i64,
    ry: i64,
    style: &Style,
    res: &Resources,
) -> (r: Vec<GraphicItem>)
    requires
        1 <= style@.space_step <= 1000,
        0 <= style@.chord_margin <= 100000,
        -10000 <= style@.chord_scale_milli <= 10000,
        -10000 <= style@.chord_accidental_scale_milli <= 10000,
        -10000 <= style@.chord_figure_scale_milli <= 10000,
        res@.text.wf(),
        crate::fonts::outline_ok(res@.music.accidental_sharp),
        crate::fonts::outline_ok(res@.music.accidental_flat),
        -2000000 <= rx <= 2000000,
        -2000000 <= ry <= 2000000,
    ensures
        r.deep_view() == chord_bass_part(
            root,
            flavour,
            color,
            bass,
            rx as int,
            ry as int,
            style@,
            res@,
        ),
{
    let step = style.space_step;
    let cs = style.chord_scale_milli;
    let cs9 = scale_nine_tenths(cs);
    let cfs = style.chord_figure_scale_milli;
    let x = div_trunc_i64(style.chord_margin, 2);
    let ghs_cs = scaled_height(res.text.glyph_height, cs);
    let ghs_cfs = scaled_height(res.text.glyph_height, cfs);
    if matches!(bass, ChordRoot::Omitted) {
        return no_items();
    }
    let bass_slash_x = rx + x + chord_w5_exec(root, flavour, color);
    let bass_x = bass_slash_x + 28;
    let bass_acc_x = bass_x + chord_letter_advance_i64(bass.get_char(), true);
    let mut v = one_item(
        GraphicItem::Line(
            bass_slash_x + 20 * step,
            ry + ghs_cfs - 40 * step,
            bass_slash_x,
            ry + ghs_cfs + 26 * step,
            Stroke::Strokestyle(5, Color::Black),
        ),
    );
    push_item(&mut v, scaled_text_item(&res.text, bass.get_char(), cs, cs, bass_x, ry + ghs_cs));
    if bass.is_flat() {
        push_item(
            &mut v,
            scaled_glyph_item(
                &res.music.accidental_sharp,
                cs,
                -cs,
                bass_acc_x,
                ry + ghs_cs - 26 * step,
            ),
        );
    } else if bass.is_sharp() {
        push_item(
            &mut v,
            scaled_glyph_item(
                &res.music.accidental_sharp,
                cs9,
                -cs9,
                bass_acc_x,
                ry + ghs_cs - 32 * step,
            ),
        );
    }
    proof {
        assert(v.deep_view() =~= chord_bass_part(
            root,
            flavour,
            color,
            bass,
            rx as int,
            ry as int,
            style@,
            res@,
        ));
    }
    v
}

/// The primitives of a chord symbol at its anchor.
#[verifier::rlimit(100)]
#[verifier::spinoff_prover]
fn chord_symbol_items(
    rx: i64,
    ry: i64,
    root: ChordRoot,
    flavour: ChordFlavour,
    color: ChordColor,
    bass: ChordRoot,
    style: &Style,
    res: &Resources,
) -> (r: Vec<GraphicItem>)
    requires
        1 <= style@.space_step <= 1000,
        0 <= style@.chord_margin <= 100000,
        -10000 <= style@.chord_scale_milli <= 10000,
        -10000 <= style@.chord_accidental_scale_milli <= 10000,
        -10000 <= style@.chord_figure_scale_milli <= 10000,
        res@.text.wf(),
        crate::fonts::outline_ok(res@.music.accidental_sharp),
        crate::fonts::outline_ok(res@.music.accidental_flat),
        -2000000 <= rx <= 2000000,
        -2000000 <= ry <= 2000000,
    ensures
        r.deep_view() == chord_symbol_view(
            rx as int,
            ry as int,
            root,
            flavour,
            color,
            bass,
            style@,
            res@,
        ),
{
    let mut v = chord_root_items(root, rx, ry, style, res);
    append_items(&mut v, chord_root_sign_items(root, rx, ry, style, res));
    append_items(&mut v, chord_flavour_items(root, flavour, rx, ry, style, res));
    append_items(&mut v, chord_color_sign_items(root, flavour, color, rx, ry, style, res));
    append_items(&mut v, chord_color_figure_items(root, flavour, color, rx, ry, style, res));
    append_items(&mut v, chord_bass_items(root, flavour, color, bass, rx, ry, style, res));
    v
}

/// The primitives of a function symbol at its anchor.
#[verifier::rlimit(100)]
#[verifier::spinoff_prover]
fn function_symbol_items(
    rx: i64,
    ry: i64,
    rw: i64,
    rh: i64,
    ftype: FunctionType,
    fcolor: FunctionColor,
    fbass: FunctionBass,
    spar: bool,
    epar: bool,
    style: &Style,
    res: &Resources,
) -> (r: Vec<GraphicItem>)
    requires
        style@.wf(),
        res@.wf(),
        -2000000 <= rx <= 2000000,
        -2000000 <= ry <= 2000000,
        -1000000 <= rw <= 1000000,
        -1000000 <= rh <= 1000000,
    ensures
        r.deep_view() == function_symbol_view(
            rx as int,
            ry as int,
            rw as int,
            rh as int,
            ftype,
            fcolor,
            fbass,
            spar,
            epar,
            style@,
            res@,
        ),
{
    let step = style.space_step;
    let gh = res.text.glyph_height;
    let fs = style.function_scale_milli;
    let ffs = style.function_figure_scale_milli;
    let ghs_fs = scaled_height(gh, fs);
    let ghs_ffs = scaled_height(gh, ffs);
    let spar_width: i64 = if spar {
        20 * step
    } else {
        0
    };

    let mut v: Vec<GraphicItem> = Vec::new();
    proof {
        assert(v.deep_view() =~= Seq::<GraphicItemView>::empty());
    }
    let ghost sv = function_symbol_view(
        rx as int,
        ry as int,
        rw as int,
        rh as int,
        ftype,
        fcolor,
        fbass,
        spar,
        epar,
        style@,
        res@,
    );

    if spar {
        push_item(&mut v, scaled_text_item(&res.text, '(', fs, fs, rx, ry + ghs_fs));
    }
    if ftype != FunctionType::Spacer {
        let letter_ops: Vec<PathSegment> = match ftype {
            FunctionType::T => {
                let a = text_path(&res.text, 'T');
                proof {
                    crate::paths::lemma_outline_widen(a.deep_view(), COORD_LIMIT as int, 2000000);
                }
                a
            },
            FunctionType::D => {
                let a = text_path(&res.text, 'D');
                proof {
                    crate::paths::lemma_outline_widen(a.deep_view(), COORD_LIMIT as int, 2000000);
                }
                a
            },
            FunctionType::S => {
                let a = text_path(&res.text, 'S');
                proof {
                    crate::paths::lemma_outline_widen(a.deep_view(), COORD_LIMIT as int, 2000000);
                }
                a
            },
            FunctionType::Sp => {
                let mut a = text_path(&res.text, 'S');
                let p = text_path(&res.text, 'p');
                proof {
                    crate::paths::lemma_outline_widen(
                        p.deep_view(),
                        COORD_LIMIT as int,
                        1000000000000,
                    );
                }
                let b = move_path(&p, 430, 0);
                proof {
                    lemma_move_within(p.deep_view(), COORD_LIMIT as int, 430, 0, 430);
                    crate::paths::lemma_outline_widen(
                        a.deep_view(),
                        COORD_LIMIT as int,
                        1000430,
                    );
                    crate::paths::lemma_outline_concat(a.deep_view(), b.deep_view(), 1000430);
                }
                append_items(&mut a, b);
                proof {
                    crate::paths::lemma_outline_widen(a.deep_view(), 1000430, 2000000);
                }
                a
            },
            FunctionType::DD => {
                let mut a = text_path(&res.text, 'D');
                let p = text_path(&res.text, 'D');
                proof {
                    crate::paths::lemma_outline_widen(
                        p.deep_view(),
                        COORD_LIMIT as int,
                        1000000000000,
                    );
                }
                let b = move_path(&p, 200, -120);
                proof {
                    lemma_move_within(p.deep_view(), COORD_LIMIT as int, 200, -120, 200);
                    crate::paths::lemma_outline_widen(a.deep_view(), COORD_LIMIT as int, 1000200);
                    crate::paths::lemma_outline_concat(a.deep_view(), b.deep_view(), 1000200);
                }
                append_items(&mut a, b);
                proof {
                    crate::paths::lemma_outline_widen(a.deep_view(), 1000200, 2000000);
                }
                a
            },
            FunctionType::Spacer => {
                let a: Vec<PathSegment> = Vec::new();
                proof {
                    assert(a.deep_view() =~= Seq::<PathSegmentView>::empty());
                }
                a
            },
        };
        proof {
            assert(letter_ops.deep_view() == function_letter_ops(ftype, res@.text));
        }
        push_item(
            &mut v,
            scaled_item(&letter_ops, fs, fs, rx + spar_width, ry + ghs_fs),
        );
    }
    let spar_width2: i64 = if ftype == FunctionType::DD {
        spar_width + 20
    } else {
        spar_width
    };
    if fcolor == FunctionColor::Fc6 || fcolor == FunctionColor::Fc64 {
        push_item(
            &mut v,
            scaled_text_item(
                &res.text,
                '6',
                ffs,
                ffs,
                rx + spar_width2 + 46 * step,
                ry + ghs_ffs - 8 * step,
            ),
        );
    } else if fcolor == FunctionColor::Fc7 {
        push_item(
            &mut v,
            scaled_text_item(
                &res.text,
                '7',
                ffs,
                ffs,
                rx + spar_width2 + 46 * step,
                ry + ghs_ffs - 8 * step,
            ),
        );
    }
    if fcolor == FunctionColor::Fc64 {
        push_item(
            &mut v,
            scaled_text_item(
                &res.text,
                '4',
                ffs,
                ffs,
                rx + spar_width2 + 46 * step,
                ry + ghs_ffs + 20 * step,
            ),
        );
    }
    if fbass == FunctionBass::Fb3 {
        let ry_scaled = crate::paths::scale_coord_i64(ry, ffs);
        proof {
            crate::paths::lemma_scale_coord_within(ry as int, ffs as int, 2000000);
        }
        push_item(
            &mut v,
            scaled_text_item(
                &res.text,
                '3',
                ffs,
                ffs,
                rx + spar_width2 + 16 * step,
                ry_scaled + 52 * step,
            ),
        );
    }
    if epar {
        push_item(
            &mut v,
            scaled_text_item(
                &res.text,
                ')',
                fs,
                fs,
                rx + spar_width2 + 66 * step,
                ry + ghs_fs,
            ),
        );
    }
    push_item(
        &mut v,
        GraphicItem::Rect(rx, ry, rw, rh, Stroke::Strokestyle(3, Color::Orange), Fill::NoFill),
    );
    proof {
        assert(v.deep_view() =~= sv);
    }
    v
}

/// Wraps a bare rectangle as a primitive with the given styles.
pub fn nrect2graphic(n: NRect, s: Stroke, f: Fill) -> (r: GraphicItem)
    ensures
        r@ == (GraphicItemView::Rect(n@.x, n@.y, n@.w, n@.h, s@, f)),
{
    GraphicItem::Rect(n.0, n.1, n.2, n.3, s, f)
}

/// Resolves one positioned shape at an anchor into its primitives, per the
/// enumerated placement rules of [`resolve_view`].  Resolution is total:
/// every shape kind yields a defined, possibly empty, list, and no input
/// within bounds is rejected.
#[verifier::rlimit(100)]
#[verifier::spinoff_prover]
pub fn nrectext2graphic(
    n: &NRectExt,
    move_x: i64,
    move_y: i64,
    style: &Style,
    res: &Resources,
    draw_dev_frames: bool,
) -> (r: Vec<GraphicItem>)
    requires
        nrect_ext_ok(n@),
        -COORD_LIMIT <= move_x <= COORD_LIMIT,
        -COORD_LIMIT <= move_y <= COORD_LIMIT,
        style@.wf(),
        res@.wf(),
    ensures
        r.deep_view() == resolve_view(
            n@,
            move_x as int,
            move_y as int,
            style@,
            res@,
            draw_dev_frames,
        ),
{
    let rect = n.0.move_rect(move_x, move_y);
    let rx = rect.0;
    let ry = rect.1;
    let rw = rect.2;
    let rh = rect.3;
    let step = style.space_step;
    proof {
        assert(1 <= step <= 1000);
    }
    match n.1 {
        NRectType::Head(shape) => {
            let outline = match shape {
                HeadShape::BlackHead => &res.music.head_black,
                HeadShape::WhiteHead => &res.music.head_white,
                HeadShape::WholeHead => &res.music.head_whole,
            };
            let items = one_item(glyph_item(outline, rx, 10 * step + ry));
            proof {
                assert(items.deep_view() == resolve_view(
                    n@,
                    move_x as int,
                    move_y as int,
                    style@,
                    res@,
                    draw_dev_frames,
                ));
            }
            items
        },
        NRectType::Dotted(_) => {
            let items = one_item(
            glyph_item(&res.music.dot, rx + 5 * step, ry + 5 * step),
        );
            proof {
                assert(items.deep_view() == resolve_view(
                    n@,
                    move_x as int,
                    move_y as int,
                    style@,
                    res@,
                    draw_dev_frames,
                ));
            }
            items
        },
        NRectType::Pause(p) => {
            let items = {
            let outline = match p {
                PauseShape::Whole => &res.music.pause_whole,
                PauseShape::Half => &res.music.pause_half,
                PauseShape::Quarter => &res.music.pause_quarter,
                PauseShape::Eighth => &res.music.pause_eighth,
                PauseShape::Sixteenth => &res.music.pause_sixteenth,
                PauseShape::ThirtySecond => &res.music.pause_thirtysecond,
            };
            let y: i64 = match p {
                PauseShape::Whole => 10 * step,
                PauseShape::Half => 20 * step,
                PauseShape::Quarter => 30 * step,
                PauseShape::Eighth => 20 * step,
                PauseShape::Sixteenth => 20 * step,
                PauseShape::ThirtySecond => 0,
            };
            one_item(glyph_item(outline, rx, ry + y))
        };
            proof {
                assert(items.deep_view() == resolve_view(
                    n@,
                    move_x as int,
                    move_y as int,
                    style@,
                    res@,
                    draw_dev_frames,
                ));
            }
            items
        },
        NRectType::Flag(bt, dir) => {
            let items = match dir {
            DirUD::Up => match bt {
                BeamType::B8 => one_item(
                    glyph_item(&res.music.flag_eighth_up, rx - style.flag_x_adjust, ry),
                ),
                BeamType::B16 => one_item(
                    glyph_item(&res.music.flag_sixteenth_up, rx - style.flag_x_adjust, ry),
                ),
                BeamType::B32 => no_items(),
            },
            DirUD::Down => match bt {
                BeamType::B8 => one_item(
                    glyph_item(
                        &res.music.flag_eighth_down,
                        rx - style.flag_x_adjust,
                        ry + 60 * step,
                    ),
                ),
                BeamType::B16 => one_item(
                    glyph_item(
                        &res.music.flag_sixteenth_down,
                        rx - style.flag_x_adjust,
                        ry + 60 * step,
                    ),
                ),
                BeamType::B32 => no_items(),
            },
        };
            proof {
                assert(items.deep_view() == resolve_view(
                    n@,
                    move_x as int,
                    move_y as int,
                    style@,
                    res@,
                    draw_dev_frames,
                ));
            }
            items
        },
        NRectType::TplSymbol(figure) => {
            let items = {
            proof {
                crate::paths::lemma_outline_widen(
                    res@.music.tpl_circle,
                    COORD_LIMIT as int,
                    2000000,
                );
            }
            let mut ops = scaled_ops(
                &res.music.tpl_circle,
                style.tpl_circle_scale_milli,
                style.tpl_circle_scale_milli,
                rx - 118 * step,
                ry,
            );
            let fig_path = text_path(&res.labels, figure);
            proof {
                crate::paths::lemma_outline_widen(fig_path.deep_view(), COORD_LIMIT as int, 2000000);
            }
            let fig = scaled_ops(
                &fig_path,
                style.tpl_figure_scale_milli,
                style.tpl_figure_scale_milli,
                rx + 17 * step,
                ry + 44 * step,
            );
            append_items(&mut ops, fig);
            one_item(
                GraphicItem::Path(
                    ops,
                    Stroke::NoStroke,
                    Fill::Fillstyle(Color::Black),
                    PathCacheInfo::NoCache,
                ),
            )
        };
            proof {
                assert(items.deep_view() == resolve_view(
                    n@,
                    move_x as int,
                    move_y as int,
                    style@,
                    res@,
                    draw_dev_frames,
                ));
            }
            items
        },
        NRectType::Clef(clef) => {
            let items = match clef {
            Clef::G => one_item(glyph_item(&res.music.clef_g, rx, ry + 92 * step)),
            Clef::F => one_item(glyph_item(&res.music.clef_f, rx, ry + 20 * step)),
            Clef::C => one_item(glyph_item(&res.music.clef_c, rx, ry + 40 * step)),
        };
            proof {
                assert(items.deep_view() == resolve_view(
                    n@,
                    move_x as int,
                    move_y as int,
                    style@,
                    res@,
                    draw_dev_frames,
                ));
            }
            items
        },
        NRectType::KeySignature(key) => {
            let items = key_signature_items(key, rx, ry, style, &res.music);
            proof {
                assert(items.deep_view() == resolve_view(
                    n@,
                    move_x as int,
                    move_y as int,
                    style@,
                    res@,
                    draw_dev_frames,
                ));
            }
            items
        },
        NRectType::TimeSignature(t) => {
            let items = time_signature_items(t, rx, ry, style, &res.music);
            proof {
                assert(items.deep_view() == resolve_view(
                    n@,
                    move_x as int,
                    move_y as int,
                    style@,
                    res@,
                    draw_dev_frames,
                ));
            }
            items
        },
        NRectType::Barline(bt) => {
            let items = match bt {
            BarlineType::Double => {
                let bw = style.barline_width_single;
                let d = style.barline_double_space - bw;
                let mut quad: Vec<PathSegment> = Vec::new();
                proof {
                    assert(quad.deep_view() =~= Seq::<PathSegmentView>::empty());
                }
                push_item(&mut quad, PathSegment::M(rx, ry));
                push_item(&mut quad, PathSegment::L(rx + bw, ry));
                push_item(&mut quad, PathSegment::L(rx + bw, ry + rh));
                push_item(&mut quad, PathSegment::L(rx, ry + rh));
                let ghost quad_spec = seq![
                    PathSegmentView::M(rx as int, ry as int),
                    PathSegmentView::L(rx + bw, ry as int),
                    PathSegmentView::L(rx + bw, ry + rh),
                    PathSegmentView::L(rx as int, ry + rh),
                ];
                proof {
                    assert(quad.deep_view() =~= quad_spec);
                }
                let mut quad2: Vec<PathSegment> = Vec::new();
                proof {
                    assert(quad2.deep_view() =~= Seq::<PathSegmentView>::empty());
                }
                push_item(&mut quad2, PathSegment::M(rx + d, ry));
                push_item(&mut quad2, PathSegment::L(rx + bw + d, ry));
                push_item(&mut quad2, PathSegment::L(rx + bw + d, ry + rh));
                push_item(&mut quad2, PathSegment::L(rx + d, ry + rh));
                proof {
                    assert(quad2.deep_view() =~= move_path_spec(quad_spec, d as int, 0));
                }
                append_items(&mut quad, quad2);
                proof {
                    assert(quad.deep_view() == quad_spec + move_path_spec(quad_spec, d as int, 0));
                }
                one_item(
                    GraphicItem::Path(
                        quad,
                        Stroke::NoStroke,
                        Fill::Fillstyle(Color::Black),
                        PathCacheInfo::NoCache,
                    ),
                )
            },
            BarlineType::FraseTick => one_item(
                GraphicItem::Line(
                    rx,
                    ry + 10 * step,
                    rx + 10 * step,
                    ry - 20 * step,
                    Stroke::Strokestyle(4, Color::Black),
                ),
            ),
            _ => one_item(
                GraphicItem::Rect(
                    rx + (rw - style.barline_width_single),
                    ry,
                    rw,
                    rh,
                    Stroke::NoStroke,
                    Fill::Fillstyle(Color::Black),
                ),
            ),
        };
            proof {
                assert(items.deep_view() == resolve_view(
                    n@,
                    move_x as int,
                    move_y as int,
                    style@,
                    res@,
                    draw_dev_frames,
                ));
            }
            items
        },
        NRectType::Accidental(a) => {
            let items = {
            let outline = match a {
                Accidental::Sharp => &res.music.accidental_sharp,
                Accidental::Flat => &res.music.accidental_flat,
                Accidental::Natural => &res.music.accidental_natural,
                Accidental::DblSharp => &res.music.accidental_doublesharp,
                Accidental::DblFlat => &res.music.accidental_doubleflat,
            };
            let y: i64 = match a {
                Accidental::Flat => 40 * step,
                _ => 30 * step,
            };
            one_item(glyph_item(outline, rx, ry + y))
        };
            proof {
                assert(items.deep_view() == resolve_view(
                    n@,
                    move_x as int,
                    move_y as int,
                    style@,
                    res@,
                    draw_dev_frames,
                ));
            }
            items
        },
        NRectType::Wip => {
            let items = no_items();
            proof {
                assert(items.deep_view() == resolve_view(
                    n@,
                    move_x as int,
                    move_y as int,
                    style@,
                    res@,
                    draw_dev_frames,
                ));
            }
            items
        },
        NRectType::ColorRect(c) => {
            let items = one_item(
            GraphicItem::Rect(
                rx,
                ry,
                rw,
                rh,
                Stroke::NoStroke,
                Fill::Fillstyle(ncolor2color(c)),
            ),
        );
            proof {
                assert(items.deep_view() == resolve_view(
                    n@,
                    move_x as int,
                    move_y as int,
                    style@,
                    res@,
                    draw_dev_frames,
                ));
            }
            items
        },
        NRectType::StrokeRect(c) => {
            let items = one_item(
            GraphicItem::Rect(
                rx,
                ry,
                rw,
                rh,
                Stroke::Strokestyle(1, ncolor2color(c)),
                Fill::NoFill,
            ),
        );
            proof {
                assert(items.deep_view() == resolve_view(
                    n@,
                    move_x as int,
                    move_y as int,
                    style@,
                    res@,
                    draw_dev_frames,
                ));
            }
            items
        },
        NRectType::TieFrom(_, _, ttype, _, _, _, _) => {
            let items = match ttype {
            TieFromType::Standard => if draw_dev_frames {
                one_item(
                    GraphicItem::Rect(
                        rx,
                        ry,
                        rw,
                        rh,
                        Stroke::NoStroke,
                        Fill::Fillstyle(Color::Green),
                    ),
                )
            } else {
                no_items()
            },
            TieFromType::LetRing => one_item(
                GraphicItem::Rect(
                    rx,
                    ry,
                    rw,
                    rh,
                    Stroke::NoStroke,
                    Fill::Fillstyle(Color::LightGray),
                ),
            ),
            TieFromType::UnresolvedInChunk => one_item(
                GraphicItem::Rect(
                    rx,
                    ry,
                    rw,
                    rh,
                    Stroke::NoStroke,
                    Fill::Fillstyle(Color::Red),
                ),
            ),
        };
            proof {
                assert(items.deep_view() == resolve_view(
                    n@,
                    move_x as int,
                    move_y as int,
                    style@,
                    res@,
                    draw_dev_frames,
                ));
            }
            items
        },
        NRectType::TieTo(ttype) => {
            let items = match ttype {
            TieToType::ResolveTieFrom(_, _) => if draw_dev_frames {
                one_item(
                    GraphicItem::Rect(
                        rx,
                        ry,
                        rw,
                        rh,
                        Stroke::NoStroke,
                        Fill::Fillstyle(Color::Lime),
                    ),
                )
            } else {
                no_items()
            },
            TieToType::LetRing => one_item(
                GraphicItem::Rect(
                    rx,
                    ry,
                    rw,
                    rh,
                    Stroke::NoStroke,
                    Fill::Fillstyle(Color::Gray),
                ),
            ),
        };
            proof {
                assert(items.deep_view() == resolve_view(
                    n@,
                    move_x as int,
                    move_y as int,
                    style@,
                    res@,
                    draw_dev_frames,
                ));
            }
            items
        },
        NRectType::HelpLine => {
            let items = one_item(
            GraphicItem::Rect(rx, ry, rw, rh, Stroke::NoStroke, Fill::Fillstyle(Color::Black)),
        );
            proof {
                assert(items.deep_view() == resolve_view(
                    n@,
                    move_x as int,
                    move_y as int,
                    style@,
                    res@,
                    draw_dev_frames,
                ));
            }
            items
        },
        NRectType::LyricChar(c) => {
            let items = {
            let sc = style.lyrics_scale_milli;
            let ghs = scaled_height(res.text.glyph_height, sc);
            one_item(scaled_text_item(&res.text, c, sc, sc, rx, ry + ghs))
        };
            proof {
                assert(items.deep_view() == resolve_view(
                    n@,
                    move_x as int,
                    move_y as int,
                    style@,
                    res@,
                    draw_dev_frames,
                ));
            }
            items
        },
        NRectType::Dev(ellipse, c) => {
            let items = if draw_dev_frames {
            if ellipse {
                one_item(
                    GraphicItem::Ellipse(
                        rx,
                        ry,
                        rw,
                        rh,
                        Stroke::Strokestyle(1, ncolor2color(c)),
                        Fill::NoFill,
                    ),
                )
            } else {
                one_item(
                    GraphicItem::Rect(
                        rx,
                        ry,
                        rw,
                        rh,
                        Stroke::Strokestyle(1, ncolor2color(c)),
                        Fill::NoFill,
                    ),
                )
            }
        } else {
            no_items()
        };
            proof {
                assert(items.deep_view() == resolve_view(
                    n@,
                    move_x as int,
                    move_y as int,
                    style@,
                    res@,
                    draw_dev_frames,
                ));
            }
            items
        },
        NRectType::Dummy => {
            let items = no_items();
            proof {
                assert(items.deep_view() == resolve_view(
                    n@,
                    move_x as int,
                    move_y as int,
                    style@,
                    res@,
                    draw_dev_frames,
                ));
            }
            items
        },
        NRectType::Spacer => {
            let items = no_items();
            proof {
                assert(items.deep_view() == resolve_view(
                    n@,
                    move_x as int,
                    move_y as int,
                    style@,
                    res@,
                    draw_dev_frames,
                ));
            }
            items
        },
        NRectType::LineFrom(_, _, _) => {
            let items = one_item(
            GraphicItem::Rect(
                rx,
                ry,
                rw,
                rh,
                Stroke::NoStroke,
                Fill::Fillstyle(Color::Orange),
            ),
        );
            proof {
                assert(items.deep_view() == resolve_view(
                    n@,
                    move_x as int,
                    move_y as int,
                    style@,
                    res@,
                    draw_dev_frames,
                ));
            }
            items
        },
        NRectType::LineTo(_, _, _) => {
            let items = no_items();
            proof {
                assert(items.deep_view() == resolve_view(
                    n@,
                    move_x as int,
                    move_y as int,
                    style@,
                    res@,
                    draw_dev_frames,
                ));
            }
            items
        },
        NRectType::ChordSymbol(root, flavour, color, bass) => {
            let items = chord_symbol_items(
            rx,
            ry,
            root,
            flavour,
            color,
            bass,
            style,
            res,
        );
            proof {
                assert(items.deep_view() == resolve_view(
                    n@,
                    move_x as int,
                    move_y as int,
                    style@,
                    res@,
                    draw_dev_frames,
                ));
            }
            items
        },
        NRectType::FunctionSymbol(ftype, fcolor, fbass, spar, epar) => {
            let items = function_symbol_items(
            rx,
            ry,
            rw,
            rh,
            ftype,
            fcolor,
            fbass,
            spar,
            epar,
            style,
            res,
        );
            proof {
                assert(items.deep_view() == resolve_view(
                    n@,
                    move_x as int,
                    move_y as int,
                    style@,
                    res@,
                    draw_dev_frames,
                ));
            }
            items
        },
    }
}

} // verus!
