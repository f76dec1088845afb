use crate::geom::{div_trunc, lerp, lerp_wide, NPoint, NPointView, point_ok};
use crate::model::{
    beam_data_ok, beam_weight, dir_sign, duration_to_beamtype, BeamType, Diagnostic, DirUD,
    Duration, RItemBeamData, RItemBeamDataView, ComplexXAdjustment,
};
use crate::prim::{
    append_items, push_item, Color, Fill, GraphicItem, GraphicItemView, PathCacheInfo,
    PathSegment, PathSegmentView, Stroke, StrokeView,
};
use crate::resolve::path_item;
use crate::style::{Style, StyleView};
use vstd::prelude::*;

verus! {

/// How far the stem of a beamed note sits right of its event anchor: the
/// complex x-adjustment, if any, plus the head-width-dependent stem seat.
pub open spec fn head_x_adjustment(d: RItemBeamDataView, s: StyleView) -> int {
    let adj: int = match d.adjustment_x {
        Some(ComplexXAdjustment::UpperRight(v)) => v as int,
        None => 0,
    };
    let head_x: int = match d.direction {
        DirUD::Down => s.stem_width_half,
        DirUD::Up => d.head_width - s.stem_width_half,
    };
    adj + head_x
}

/// The x position of a note's stem.
pub open spec fn stem_x(d: RItemBeamDataView, x: int, s: StyleView) -> int {
    x + head_x_adjustment(d, s)
}

/// The y position of a stem's tip, `sign` being the direction sign the
/// group's first member sets for the whole group.
pub open spec fn stem_tip_y(d: RItemBeamDataView, y: int, s: StyleView, sign: int) -> int {
    y + d.tip_level * s.half_space() + s.stem_length() * sign
}

/// The y position of a stem's root at the notehead, with the small
/// head/stem overlap correction.
pub open spec fn stem_bop_y(d: RItemBeamDataView, y: int, s: StyleView) -> int {
    y + match d.direction {
        DirUD::Up => d.bottom_level * s.half_space() - s.stem_head_correction,
        DirUD::Down => d.top_level * s.half_space() + s.stem_head_correction,
    }
}

/// A stem segment between a root and a tip, ordered by stem direction.
pub open spec fn stem_segment(
    dir: DirUD,
    sx: int,
    tip: int,
    bop: int,
    s: StyleView,
) -> GraphicItemView {
    let stroke = StrokeView::Strokestyle(s.stem_width, Color::Black);
    match dir {
        DirUD::Down => GraphicItemView::Line(sx, bop, sx, tip, stroke),
        DirUD::Up => GraphicItemView::Line(sx, tip, sx, bop, stroke),
    }
}

/// The one stem a lone stemmed note draws.
pub open spec fn single_view(d: RItemBeamDataView, p: NPointView, s: StyleView) -> Seq<
    GraphicItemView,
> {
    let sx = stem_x(d, p.x, s);
    let tip = stem_tip_y(d, p.y, s, dir_sign(d.direction));
    let bop = stem_bop_y(d, p.y, s);
    seq![stem_segment(d.direction, sx, tip, bop, s)]
}

/// A fraction numerator clamped into the beam's span, so that a middle
/// event outside the first/last stems still gets a tip on the beam line.
pub open spec fn clamp_num(dx: int, den: int) -> int {
    if dx < 0 {
        0
    } else if dx > den {
        den
    } else {
        dx
    }
}

/// The x-span between the first and last stem; a group whose stems do not
/// advance in x counts as a span of one unit, keeping the beam level.
pub open spec fn beam_den(w: int) -> int {
    if w >= 1 {
        w
    } else {
        1
    }
}

/// The stem-tip points of a beam group: the first and last tips define
/// the primary beam line, and every middle tip is linearly interpolated
/// between them at its horizontal fraction of the span.
pub open spec fn beam_tips(
    items: Seq<(RItemBeamDataView, NPointView)>,
    s: StyleView,
) -> Seq<(int, int)> {
    let last = items.len() - 1;
    let sign = dir_sign(items[0].0.direction);
    let fx = stem_x(items[0].0, items[0].1.x, s);
    let fty = stem_tip_y(items[0].0, items[0].1.y, s, sign);
    let lx = stem_x(items[last].0, items[last].1.x, s);
    let lty = stem_tip_y(items[last].0, items[last].1.y, s, sign);
    let den = beam_den(lx - fx);
    Seq::new(
        items.len(),
        |i: int|
            if i == 0 {
                (fx, fty)
            } else if i == last {
                (lx, lty)
            } else {
                let mx = items[i].1.x + head_x_adjustment(items[last].0, s);
                (mx, lerp(fty, lty, clamp_num(mx - fx, den), den))
            },
    )
}

/// The stem segments of a beam group, in emission order: first, last,
/// then the middles left to right, each running from its own root to its
/// beam-contact point.
pub open spec fn group_stems(
    items: Seq<(RItemBeamDataView, NPointView)>,
    s: StyleView,
) -> Seq<GraphicItemView> {
    let last = items.len() - 1;
    let tips = beam_tips(items, s);
    let first_stem = stem_segment(
        items[0].0.direction,
        tips[0].0,
        tips[0].1,
        stem_bop_y(items[0].0, items[0].1.y, s),
        s,
    );
    let last_stem = stem_segment(
        items[last].0.direction,
        tips[last].0,
        tips[last].1,
        stem_bop_y(items[last].0, items[last].1.y, s),
        s,
    );
    seq![first_stem, last_stem] + Seq::new(
        (items.len() - 2) as nat,
        |k: int|
            stem_segment(
                items[k + 1].0.direction,
                tips[k + 1].0,
                tips[k + 1].1,
                stem_bop_y(items[k + 1].0, items[k + 1].1.y, s),
                s,
            ),
    )
}

/// The signed thickness of a beam quadrilateral.
pub open spec fn beam_thickness(s: StyleView, dir: DirUD) -> int {
    match dir {
        DirUD::Down => -s.beam_height,
        DirUD::Up => s.beam_height,
    }
}

/// A filled beam quadrilateral between two contact points.
pub open spec fn beam_quad(x: int, y: int, x2: int, y2: int, bh: int) -> GraphicItemView {
    path_item(
        seq![
            PathSegmentView::M(x, y),
            PathSegmentView::L(x2, y2),
            PathSegmentView::L(x2, y2 + bh),
            PathSegmentView::L(x, y + bh),
        ],
    )
}

/// The contact points one beam level further out along the beam
/// perpendicular.
pub open spec fn sixteenth_points(tips: Seq<(int, int)>, dir: DirUD, s: StyleView) -> Seq<
    (int, int),
> {
    Seq::new(tips.len(), |i: int| (tips[i].0, tips[i].1 + s.beam_sub_distance * -dir_sign(dir)))
}

/// A short secondary beam anchored at the right stem of a pair, set back
/// a notehead width so it clears the following notehead; drawn with its
/// diagnostic guide line.
pub open spec fn rightside_view(
    left: (int, int),
    right: (int, int),
    dir: DirUD,
    s: StyleView,
) -> Seq<GraphicItemView> {
    let w = right.0 - left.0;
    let den = beam_den(w);
    let tip_left_x = right.0 - s.head_width_black;
    let tip_left_y = lerp(left.1, right.1, w - s.head_width_black, den);
    let x = tip_left_x - s.stem_width_half;
    let y = tip_left_y;
    let x2 = right.0 + s.stem_width_half;
    let y2 = right.1;
    seq![
        GraphicItemView::Line(
            x,
            y,
            x2,
            y2,
            StrokeView::Strokestyle(s.dev_line_thickness, Color::Red),
        ),
        beam_quad(x, y, x2, y2, beam_thickness(s, dir)),
    ]
}

/// A secondary beam spanning a whole pair of stems, with its diagnostic
/// guide line.
pub open spec fn span_view(left: (int, int), right: (int, int), dir: DirUD, s: StyleView) -> Seq<
    GraphicItemView,
> {
    let x = left.0 - s.stem_width_half;
    let y = left.1;
    let x2 = right.0 + s.stem_width_half;
    let y2 = right.1;
    seq![
        GraphicItemView::Line(
            x,
            y,
            x2,
            y2,
            StrokeView::Strokestyle(s.dev_line_thickness, Color::Red),
        ),
        beam_quad(x, y, x2, y2, beam_thickness(s, dir)),
    ]
}

/// A short secondary beam anchored at the left stem of a pair, one
/// notehead width long, followed by its diagnostic guide line.
pub open spec fn leftside_view(
    left: (int, int),
    right: (int, int),
    dir: DirUD,
    s: StyleView,
) -> Seq<GraphicItemView> {
    let w = right.0 - left.0;
    let den = beam_den(w);
    let tip_left_x = left.0 + s.head_width_black;
    let tip_left_y = lerp(left.1, right.1, w - s.head_width_black, den);
    let x = left.0 - s.stem_width_half;
    let y = left.1;
    let x2 = tip_left_x + s.stem_width_half;
    let y2 = tip_left_y;
    seq![
        beam_quad(x, y, x2, y2, beam_thickness(s, dir)),
        GraphicItemView::Line(
            x,
            y,
            x2,
            y2,
            StrokeView::Strokestyle(s.dev_line_thickness, Color::Red),
        ),
    ]
}

/// The recognized sub-beam shapes for groups of two to four notes.
#[derive(Clone, Copy, Debug, PartialEq, Eq, Structural)]
pub enum SubBeamPlan {
    /// All members carry two beams: one full-span secondary beam.
    FullSpan,
    /// A short secondary beam at the right of the first pair.
    RightPair,
    /// A short secondary beam at the left of the first pair.
    LeftPair,
    /// A secondary beam over the first two stems.
    SpanFirstPair,
    /// Two short secondary beams, one per side of the middle stem.
    SplitPair,
    /// A secondary beam over the second and third stems.
    SpanSecondPair,
    /// No recognized shape: secondary beams are omitted.
    Unrecognized,
}

/// The sub-beam shape of a two-note beam-weight tuple.
pub open spec fn plan_of_pair(a: BeamType, b: BeamType) -> SubBeamPlan {
    match (a, b) {
        (BeamType::B16, BeamType::B16) => SubBeamPlan::FullSpan,
        (BeamType::B8, BeamType::B16) => SubBeamPlan::RightPair,
        (BeamType::B16, BeamType::B8) => SubBeamPlan::LeftPair,
        _ => SubBeamPlan::Unrecognized,
    }
}

/// The sub-beam shape of a three-note beam-weight tuple.
pub open spec fn plan_of_triple(a: BeamType, b: BeamType, c: BeamType) -> SubBeamPlan {
    match (a, b, c) {
        (BeamType::B16, BeamType::B16, BeamType::B16) => SubBeamPlan::FullSpan,
        (BeamType::B8, BeamType::B16, BeamType::B8) => SubBeamPlan::RightPair,
        (BeamType::B16, BeamType::B16, BeamType::B8) => SubBeamPlan::SpanFirstPair,
        (BeamType::B16, BeamType::B8, BeamType::B16) => SubBeamPlan::SplitPair,
        (BeamType::B8, BeamType::B16, BeamType::B16) => SubBeamPlan::SpanSecondPair,
        _ => SubBeamPlan::Unrecognized,
    }
}

/// The sub-beam shape of a four-note beam-weight tuple.
pub open spec fn plan_of_quad(a: BeamType, b: BeamType, c: BeamType, d: BeamType) -> SubBeamPlan {
    match (a, b, c, d) {
        (BeamType::B16, BeamType::B16, BeamType::B16, BeamType::B16) => SubBeamPlan::FullSpan,
        (BeamType::B16, BeamType::B16, BeamType::B8, BeamType::B8) => SubBeamPlan::SpanFirstPair,
        (BeamType::B8, BeamType::B16, BeamType::B16, BeamType::B8) => SubBeamPlan::SpanSecondPair,
        _ => SubBeamPlan::Unrecognized,
    }
}

/// The exact-pattern table mapping a group's ordered beam-weight tuple to
/// its sub-beam shape; tuples outside the table are unrecognized.
pub open spec fn sub_beam_plan(w: Seq<BeamType>) -> SubBeamPlan {
    if w.len() == 2 {
        plan_of_pair(w[0], w[1])
    } else if w.len() == 3 {
        plan_of_triple(w[0], w[1], w[2])
    } else if w.len() == 4 {
        plan_of_quad(w[0], w[1], w[2], w[3])
    } else {
        SubBeamPlan::Unrecognized
    }
}

/// How many stems a plan needs beyond the pair it anchors at.
pub open spec fn plan_fits(plan: SubBeamPlan, n_tips: int) -> bool {
    match plan {
        SubBeamPlan::FullSpan => n_tips >= 2,
        SubBeamPlan::RightPair => n_tips >= 2,
        SubBeamPlan::LeftPair => n_tips >= 2,
        SubBeamPlan::SpanFirstPair => n_tips >= 2,
        SubBeamPlan::SplitPair => n_tips >= 3,
        SubBeamPlan::SpanSecondPair => n_tips >= 3,
        SubBeamPlan::Unrecognized => true,
    }
}

/// How many secondary-beam segments a plan draws.
pub open spec fn secondary_count(plan: SubBeamPlan) -> nat {
    match plan {
        SubBeamPlan::FullSpan => 1,
        SubBeamPlan::RightPair => 1,
        SubBeamPlan::LeftPair => 1,
        SubBeamPlan::SpanFirstPair => 1,
        SubBeamPlan::SplitPair => 2,
        SubBeamPlan::SpanSecondPair => 1,
        SubBeamPlan::Unrecognized => 0,
    }
}

/// The beam-weight classes of a duration tuple.
pub open spec fn weights_of(durations: Seq<Duration>) -> Seq<BeamType> {
    Seq::new(durations.len(), |i: int| beam_weight(durations[i]))
}

/// The primary beam and the sub-beams of a group, with the diagnostics
/// the selection emits.  The primary beam always spans the first to last
/// contact point; a recognized duration tuple that fits the group adds
/// its secondary segments, an unrecognized or ill-fitting one adds a
/// diagnostic and nothing else.
pub open spec fn sub_beams_view(
    tips: Seq<(int, int)>,
    dir: DirUD,
    durations: Seq<Duration>,
    s: StyleView,
) -> (Seq<GraphicItemView>, Seq<Diagnostic>) {
    let last = tips.len() - 1;
    let bh = beam_thickness(s, dir);
    let primary = beam_quad(
        tips[0].0 - s.stem_width_half,
        tips[0].1,
        tips[last].0 + s.stem_width_half,
        tips[last].1,
        bh,
    );
    let sx = sixteenth_points(tips, dir, s);
    let plan = sub_beam_plan(weights_of(durations));
    if plan == SubBeamPlan::Unrecognized || !plan_fits(plan, tips.len() as int) {
        (seq![primary], seq![Diagnostic::UnhandledSubBeamPattern])
    } else {
        match plan {
            SubBeamPlan::FullSpan => (
                seq![primary, beam_quad(sx[0].0, sx[0].1, sx[last].0, sx[last].1, bh)],
                Seq::empty(),
            ),
            SubBeamPlan::RightPair => (
                seq![primary] + rightside_view(sx[0], sx[1], dir, s),
                Seq::empty(),
            ),
            SubBeamPlan::LeftPair => (
                seq![primary] + leftside_view(sx[0], sx[1], dir, s),
                Seq::empty(),
            ),
            SubBeamPlan::SpanFirstPair => (
                seq![primary] + span_view(sx[0], sx[1], dir, s),
                Seq::empty(),
            ),
            SubBeamPlan::SplitPair => (
                seq![primary] + leftside_view(sx[0], sx[1], dir, s) + rightside_view(
                    sx[1],
                    sx[2],
                    dir,
                    s,
                ),
                Seq::empty(),
            ),
            SubBeamPlan::SpanSecondPair => (
                seq![primary] + span_view(sx[1], sx[2], dir, s),
                Seq::empty(),
            ),
            SubBeamPlan::Unrecognized => (seq![primary], seq![
                Diagnostic::UnhandledSubBeamPattern,
            ]),
        }
    }
}

/// What a flushed beam group draws and reports: nothing but a diagnostic
/// for a lone member; otherwise its stems, then its beams.
pub open spec fn do_beam_view(
    items: Seq<(RItemBeamDataView, NPointView)>,
    s: StyleView,
) -> (Seq<GraphicItemView>, Seq<Diagnostic>) {
    if items.len() <= 1 {
        (Seq::empty(), seq![Diagnostic::SingleEventBeamGroup])
    } else {
        let last = items.len() - 1;
        let sub = sub_beams_view(
            beam_tips(items, s),
            items[last].0.direction,
            items[last].0.note_durations.unwrap(),
            s,
        );
        (group_stems(items, s) + sub.0, sub.1)
    }
}

/// How far a beamed note's stem sits right of its event anchor.
fn get_head_x_adjustment(data: &RItemBeamData, style: &Style) -> (r: i64)
    requires
        beam_data_ok(data@),
        style@.wf(),
    ensures
        r == head_x_adjustment(data@, style@),
        -300000 <= r <= 300000,
{
    let adj: i64 = match data.adjustment_x {
        Some(ComplexXAdjustment::UpperRight(v)) => v,
        None => 0,
    };
    let head_x: i64 = match data.direction {
        DirUD::Down => style.stem_width_half,
        DirUD::Up => data.head_width - style.stem_width_half,
    };
    adj + head_x
}

/// A staff level count times the half-space distance, with its bound.
pub(crate) fn level_times_half(level: i64, style: &Style) -> (r: i64)
    requires
        -1000 <= level <= 1000,
        style@.wf(),
    ensures
        r == level * style@.half_space(),
        -10000000 <= r <= 10000000,
{
    let half: i64 = 10 * style.space_step;
    proof {
        assert(-10000000 <= level * half <= 10000000) by (nonlinear_arith)
            requires
                -1000 <= level <= 1000,
                0 <= half <= 10000,
        ;
    }
    level * half
}

/// The stem length as a distance, with its bound.
fn stem_len_units(style: &Style) -> (r: i64)
    requires
        style@.wf(),
    ensures
        r == style@.stem_length(),
        0 <= r <= 1000000,
{
    let half: i64 = 10 * style.space_step;
    let halves = style.stem_length_halves;
    proof {
        assert(0 <= halves * half <= 1000000) by (nonlinear_arith)
            requires
                0 <= halves <= 100,
                0 <= half <= 10000,
        ;
    }
    halves * half
}

/// A stem tip's y position, the group direction given by its first
/// member.
fn stem_tip_y_i64(d: &RItemBeamData, y: i64, style: &Style, sign_dir: DirUD) -> (r: i64)
    requires
        beam_data_ok(d@),
        style@.wf(),
        -1000000 <= y <= 1000000,
    ensures
        r == stem_tip_y(d@, y as int, style@, dir_sign(sign_dir)),
        -22000000 <= r <= 22000000,
{
    let t = level_times_half(d.tip_level, style);
    let sl = stem_len_units(style);
    proof {
        assert(style@.stem_length() * 1int == style@.stem_length());
        assert(style@.stem_length() * (-1int) == -style@.stem_length());
    }
    match sign_dir {
        DirUD::Down => y + t + sl,
        DirUD::Up => y + t - sl,
    }
}

/// A stem root's y position at the notehead.
fn stem_bop_y_i64(d: &RItemBeamData, y: i64, style: &Style) -> (r: i64)
    requires
        beam_data_ok(d@),
        style@.wf(),
        -1000000 <= y <= 1000000,
    ensures
        r == stem_bop_y(d@, y as int, style@),
        -22000000 <= r <= 22000000,
{
    match d.direction {
        DirUD::Up => {
            let t = level_times_half(d.bottom_level, style);
            y + t - style.stem_head_correction
        },
        DirUD::Down => {
            let t = level_times_half(d.top_level, style);
            y + t + style.stem_head_correction
        },
    }
}

/// One stem segment, ordered by its own direction.
fn stem_segment_i64(dir: DirUD, sx: i64, tip: i64, bop: i64, style: &Style) -> (r: GraphicItem)
    requires
        style@.wf(),
    ensures
        r@ == stem_segment(dir, sx as int, tip as int, bop as int, style@),
{
    let stroke = Stroke::Strokestyle(style.stem_width, Color::Black);
    match dir {
        DirUD::Down => GraphicItem::Line(sx, bop, sx, tip, stroke),
        DirUD::Up => GraphicItem::Line(sx, tip, sx, bop, stroke),
    }
}

/// Draws the stem of a lone stemmed note.
pub fn do_single(first_data: &RItemBeamData, coords: NPoint, style: &Style) -> (r: Vec<
    GraphicItem,
>)
    requires
        beam_data_ok(first_data@),
        point_ok(coords@),
        style@.wf(),
    ensures
        r.deep_view() == single_view(first_data@, coords@, style@),
{
    let sx = coords.0 + get_head_x_adjustment(first_data, style);
    let tip = stem_tip_y_i64(first_data, coords.1, style, first_data.direction);
    let bop = stem_bop_y_i64(first_data, coords.1, style);
    crate::prim::one_item(stem_segment_i64(first_data.direction, sx, tip, bop, style))
}

/// A filled beam quadrilateral between two contact points.
fn beam_quad_i64(x: i64, y: i64, x2: i64, y2: i64, bh: i64) -> (r: GraphicItem)
    requires
        -1000000000000000000 <= y <= 1000000000000000000,
        -1000000000000000000 <= y2 <= 1000000000000000000,
        -1000000 <= bh <= 1000000,
    ensures
        r@ == beam_quad(x as int, y as int, x2 as int, y2 as int, bh as int),
{
    let mut ops: Vec<PathSegment> = Vec::new();
    proof {
        assert(ops.deep_view() =~= Seq::<PathSegmentView>::empty());
    }
    push_item(&mut ops, PathSegment::M(x, y));
    push_item(&mut ops, PathSegment::L(x2, y2));
    push_item(&mut ops, PathSegment::L(x2, y2 + bh));
    push_item(&mut ops, PathSegment::L(x, y + bh));
    proof {
        assert(ops.deep_view() =~= seq![
            PathSegmentView::M(x as int, y as int),
            PathSegmentView::L(x2 as int, y2 as int),
            PathSegmentView::L(x2 as int, y2 + bh),
            PathSegmentView::L(x as int, y + bh),
        ]);
    }
    GraphicItem::Path(ops, Stroke::NoStroke, Fill::Fillstyle(Color::Black), PathCacheInfo::NoCache)
}

/// The signed beam thickness for a stem direction.
fn beam_thickness_i64(style: &Style, dir: DirUD) -> (r: i64)
    requires
        style@.wf(),
    ensures
        r == beam_thickness(style@, dir),
        -1000000 <= r <= 1000000,
{
    match dir {
        DirUD::Down => -style.beam_height,
        DirUD::Up => style.beam_height,
    }
}

/// Draws a short right-anchored secondary beam over a stem pair.
pub fn do_sub_sixteen_rightside(left: NPoint, right: NPoint, direction: DirUD, style: &Style) -> (r:
    Vec<GraphicItem>)
    requires
        style@.wf(),
        -40000000 <= left.0 <= 40000000,
        -40000000 <= left.1 <= 40000000,
        -40000000 <= right.0 <= 40000000,
        -40000000 <= right.1 <= 40000000,
    ensures
        r.deep_view() == rightside_view((left@.x, left@.y), (right@.x, right@.y), direction, style@),
{
    let w: i64 = right.0 - left.0;
    let den: i64 = if w >= 1 {
        w
    } else {
        1
    };
    let tip_left_x = right.0 - style.head_width_black;
    let tip_left_y = lerp_wide(left.1, right.1, w - style.head_width_black, den);
    let x = tip_left_x - style.stem_width_half;
    let y = tip_left_y;
    let x2 = right.0 + style.stem_width_half;
    let y2 = right.1;
    let bh = beam_thickness_i64(style, direction);
    let mut v: Vec<GraphicItem> = Vec::new();
    proof {
        assert(v.deep_view() =~= Seq::<GraphicItemView>::empty());
    }
    push_item(
        &mut v,
        GraphicItem::Line(x, y, x2, y2, Stroke::Strokestyle(style.dev_line_thickness, Color::Red)),
    );
    push_item(&mut v, beam_quad_i64(x, y, x2, y2, bh));
    v
}

/// Draws a secondary beam spanning a whole stem pair.
pub fn do_sub_sixteen(left: NPoint, right: NPoint, direction: DirUD, style: &Style) -> (r: Vec<
    GraphicItem,
>)
    requires
        style@.wf(),
        -40000000 <= left.0 <= 40000000,
        -40000000 <= left.1 <= 40000000,
        -40000000 <= right.0 <= 40000000,
        -40000000 <= right.1 <= 40000000,
    ensures
        r.deep_view() == span_view((left@.x, left@.y), (right@.x, right@.y), direction, style@),
{
    let x = left.0 - style.stem_width_half;
    let y = left.1;
    let x2 = right.0 + style.stem_width_half;
    let y2 = right.1;
    let bh = beam_thickness_i64(style, direction);
    let mut v: Vec<GraphicItem> = Vec::new();
    proof {
        assert(v.deep_view() =~= Seq::<GraphicItemView>::empty());
    }
    push_item(
        &mut v,
        GraphicItem::Line(x, y, x2, y2, Stroke::Strokestyle(style.dev_line_thickness, Color::Red)),
    );
    push_item(&mut v, beam_quad_i64(x, y, x2, y2, bh));
    v
}

/// Draws a short left-anchored secondary beam over a stem pair.
pub fn do_sub_sixteen_leftside(left: NPoint, right: NPoint, direction: DirUD, style: &Style) -> (r:
    Vec<GraphicItem>)
    requires
        style@.wf(),
        -40000000 <= left.0 <= 40000000,
        -40000000 <= left.1 <= 40000000,
        -40000000 <= right.0 <= 40000000,
        -40000000 <= right.1 <= 40000000,
    ensures
        r.deep_view() == leftside_view((left@.x, left@.y), (right@.x, right@.y), direction, style@),
{
    let w: i64 = right.0 - left.0;
    let den: i64 = if w >= 1 {
        w
    } else {
        1
    };
    let tip_left_x = left.0 + style.head_width_black;
    let tip_left_y = lerp_wide(left.1, right.1, w - style.head_width_black, den);
    let x = left.0 - style.stem_width_half;
    let y = left.1;
    let x2 = tip_left_x + style.stem_width_half;
    let y2 = tip_left_y;
    let bh = beam_thickness_i64(style, direction);
    let mut v: Vec<GraphicItem> = Vec::new();
    proof {
        assert(v.deep_view() =~= Seq::<GraphicItemView>::empty());
    }
    push_item(&mut v, beam_quad_i64(x, y, x2, y2, bh));
    push_item(
        &mut v,
        GraphicItem::Line(x, y, x2, y2, Stroke::Strokestyle(style.dev_line_thickness, Color::Red)),
    );
    v
}

/// The sub-beam shape of a group's beam-weight tuple.
fn classify_weights(w: &Vec<BeamType>) -> (p: SubBeamPlan)
    ensures
        p == sub_beam_plan(w@),
{
    if w.len() == 2 {
        match (w[0], w[1]) {
            (BeamType::B16, BeamType::B16) => SubBeamPlan::FullSpan,
            (BeamType::B8, BeamType::B16) => SubBeamPlan::RightPair,
            (BeamType::B16, BeamType::B8) => SubBeamPlan::LeftPair,
            _ => SubBeamPlan::Unrecognized,
        }
    } else if w.len() == 3 {
        match (w[0], w[1], w[2]) {
            (BeamType::B16, BeamType::B16, BeamType::B16) => SubBeamPlan::FullSpan,
            (BeamType::B8, BeamType::B16, BeamType::B8) => SubBeamPlan::RightPair,
            (BeamType::B16, BeamType::B16, BeamType::B8) => SubBeamPlan::SpanFirstPair,
            (BeamType::B16, BeamType::B8, BeamType::B16) => SubBeamPlan::SplitPair,
            (BeamType::B8, BeamType::B16, BeamType::B16) => SubBeamPlan::SpanSecondPair,
            _ => SubBeamPlan::Unrecognized,
        }
    } else if w.len() == 4 {
        match (w[0], w[1], w[2], w[3]) {
            (BeamType::B16, BeamType::B16, BeamType::B16, BeamType::B16) => SubBeamPlan::FullSpan,
            (BeamType::B16, BeamType::B16, BeamType::B8, BeamType::B8) => SubBeamPlan::SpanFirstPair,
            (BeamType::B8, BeamType::B16, BeamType::B16, BeamType::B8) => SubBeamPlan::SpanSecondPair,
            _ => SubBeamPlan::Unrecognized,
        }
    } else {
        SubBeamPlan::Unrecognized
    }
}

/// The integer points of a point list.
pub open spec fn pts_of(s: Seq<NPointView>) -> Seq<(int, int)> {
    Seq::new(s.len(), |i: int| (s[i].x, s[i].y))
}

/// Whether every point of a contact list is within the beam bound.
pub open spec fn tips_in_range(s: Seq<NPointView>) -> bool {
    forall|i: int| 0 <= i < s.len() ==> {
        &&& -30000000 <= (#[trigger] s[i]).x <= 30000000
        &&& -30000000 <= s[i].y <= 30000000
    }
}

/// Draws the primary beam over a group's contact points and the sub-beam
/// segments its duration tuple selects; an unrecognized or ill-fitting
/// tuple notes a diagnostic and draws no secondary beam.
#[verifier::rlimit(100)]
#[verifier::spinoff_prover]
pub fn do_sub_beams(
    tip_coords: &Vec<NPoint>,
    direction: DirUD,
    durations: &Vec<Duration>,
    style: &Style,
    diags: &mut Vec<Diagnostic>,
) -> (r: Vec<GraphicItem>)
    requires
        tip_coords.len() >= 2,
        tips_in_range(tip_coords.deep_view()),
        style@.wf(),
    ensures
        r.deep_view() == sub_beams_view(
            pts_of(tip_coords.deep_view()),
            direction,
            durations@,
            style@,
        ).0,
        final(diags)@ == old(diags)@ + sub_beams_view(
            pts_of(tip_coords.deep_view()),
            direction,
            durations@,
            style@,
        ).1,
{
    let ghost tips = pts_of(tip_coords.deep_view());
    let ghost spec_pair = sub_beams_view(tips, direction, durations@, style@);
    let lastidx = tip_coords.len() - 1;
    let mut weights: Vec<BeamType> = Vec::new();
    let mut i: usize = 0;
    while i < durations.len()
        invariant
            i <= durations.len(),
            weights@ == weights_of(durations@).take(i as int),
        decreases durations.len() - i,
    {
        weights.push(duration_to_beamtype(&durations[i]));
        proof {
            assert(weights_of(durations@).take(i as int + 1) =~= weights_of(durations@).take(
                i as int,
            ).push(weights_of(durations@)[i as int]));
        }
        i += 1;
    }
    proof {
        assert(weights_of(durations@).take(durations@.len() as int) =~= weights_of(durations@));
    }
    let plan = classify_weights(&weights);
    let bh = beam_thickness_i64(style, direction);
    proof {
        assert(tip_coords.deep_view()[0] == tip_coords@[0]@);
        assert(tip_coords.deep_view()[lastidx as int] == tip_coords@[lastidx as int]@);
    }
    let primary = beam_quad_i64(
        tip_coords[0].0 - style.stem_width_half,
        tip_coords[0].1,
        tip_coords[lastidx].0 + style.stem_width_half,
        tip_coords[lastidx].1,
        bh,
    );
    let mut v: Vec<GraphicItem> = crate::prim::one_item(primary);
    let fits: bool = match plan {
        SubBeamPlan::SplitPair => tip_coords.len() >= 3,
        SubBeamPlan::SpanSecondPair => tip_coords.len() >= 3,
        _ => true,
    };
    proof {
        assert(fits == plan_fits(plan, tips.len() as int));
    }
    if matches!(plan, SubBeamPlan::Unrecognized) || !fits {
        diags.push(Diagnostic::UnhandledSubBeamPattern);
        proof {
            assert(diags@ =~= old(diags)@ + spec_pair.1);
        }
        return v;
    }
    let off: i64 = match direction {
        DirUD::Down => -style.beam_sub_distance,
        DirUD::Up => style.beam_sub_distance,
    };
    proof {
        assert(-dir_sign(DirUD::Down) == -1int && -dir_sign(DirUD::Up) == 1int);
        assert(style@.beam_sub_distance * (-1int) == -style@.beam_sub_distance);
        assert(style@.beam_sub_distance * 1int == style@.beam_sub_distance);
    }
    let ghost sx_spec = sixteenth_points(tips, direction, style@);
    let mut sx: Vec<NPoint> = Vec::new();
    let mut i: usize = 0;
    while i < tip_coords.len()
        invariant
            i <= tip_coords.len(),
            tips_in_range(tip_coords.deep_view()),
            style@.wf(),
            -100000 <= off <= 100000,
            off as int == style@.beam_sub_distance * -dir_sign(direction),
            tips == pts_of(tip_coords.deep_view()),
            sx_spec == sixteenth_points(tips, direction, style@),
            pts_of(sx.deep_view()) =~= sx_spec.take(i as int),
            forall|j: int| 0 <= j < sx.deep_view().len() ==> {
                &&& -31000000 <= (#[trigger] sx.deep_view()[j]).x <= 31000000
                &&& -31000000 <= sx.deep_view()[j].y <= 31000000
            },
        decreases tip_coords.len() - i,
    {
        proof {
            assert(tip_coords.deep_view()[i as int] == tip_coords@[i as int]@);
        }
        let q = NPoint(tip_coords[i].0, tip_coords[i].1 + off);
        let ghost before = sx.deep_view();
        push_item(&mut sx, q);
        proof {
            assert(sx.deep_view() == before.push(q@));
            assert(pts_of(before) == sx_spec.take(i as int));
            assert(pts_of(before).len() == before.len());
            assert(sx_spec.len() == tips.len());
            assert(sx_spec.take(i as int).len() == i as int);
            assert(before.len() == i as int);
            assert(sx_spec[i as int] == (
                tips[i as int].0,
                tips[i as int].1 + style@.beam_sub_distance * -dir_sign(direction),
            ));
            assert(q@.x == sx_spec[i as int].0 && q@.y == sx_spec[i as int].1);
            let after = sx.deep_view();
            assert forall|j: int| 0 <= j < pts_of(after).len() implies pts_of(after)[j]
                == sx_spec.take(i as int + 1)[j] by {
                if j < i as int {
                    assert(after[j] == before[j]);
                    assert(pts_of(before)[j] == sx_spec[j]);
                } else {
                    assert(after[j] == q@);
                }
            }
            assert(pts_of(sx.deep_view()) =~= sx_spec.take(i as int + 1));
        }
        i += 1;
    }
    proof {
        assert(sx_spec.take(tips.len() as int) =~= sx_spec);
        assert(sx.deep_view().len() == tips.len());
        assert(pts_of(sx.deep_view()) == sx_spec);
        assert((pts_of(sx.deep_view())[0], pts_of(sx.deep_view())[1]) == (sx_spec[0], sx_spec[1]));
        assert(sx.deep_view()[0].x == sx_spec[0].0 && sx.deep_view()[0].y == sx_spec[0].1);
        assert(sx.deep_view()[1].x == sx_spec[1].0 && sx.deep_view()[1].y == sx_spec[1].1);
    }
    match plan {
        SubBeamPlan::FullSpan => {
            proof {
                assert(sx.deep_view()[lastidx as int].x == sx_spec[lastidx as int].0
                    && sx.deep_view()[lastidx as int].y == sx_spec[lastidx as int].1);
            }
            let q = beam_quad_i64(sx[0].0, sx[0].1, sx[lastidx].0, sx[lastidx].1, bh);
            push_item(&mut v, q);
        },
        SubBeamPlan::RightPair => {
            let seg = do_sub_sixteen_rightside(sx[0], sx[1], direction, style);
            append_items(&mut v, seg);
        },
        SubBeamPlan::LeftPair => {
            let seg = do_sub_sixteen_leftside(sx[0], sx[1], direction, style);
            append_items(&mut v, seg);
        },
        SubBeamPlan::SpanFirstPair => {
            let seg = do_sub_sixteen(sx[0], sx[1], direction, style);
            append_items(&mut v, seg);
        },
        SubBeamPlan::SplitPair => {
            proof {
                assert(sx.deep_view()[2].x == sx_spec[2].0 && sx.deep_view()[2].y == sx_spec[2].1);
            }
            let seg = do_sub_sixteen_leftside(sx[0], sx[1], direction, style);
            append_items(&mut v, seg);
            let seg2 = do_sub_sixteen_rightside(sx[1], sx[2], direction, style);
            append_items(&mut v, seg2);
        },
        SubBeamPlan::SpanSecondPair => {
            proof {
                assert(sx.deep_view()[2].x == sx_spec[2].0 && sx.deep_view()[2].y == sx_spec[2].1);
            }
            let seg = do_sub_sixteen(sx[1], sx[2], direction, style);
            append_items(&mut v, seg);
        },
        SubBeamPlan::Unrecognized => {
            proof {
                assert(false);
            }
        },
    }
    proof {
        assert(v.deep_view() =~= spec_pair.0);
        assert(diags@ =~= old(diags)@ + spec_pair.1);
    }
    v
}

/// Reconstructs one flushed beam group: the stems of every member, the
/// primary beam, and the duration-dependent sub-beams.  A group flushed
/// with a single member draws nothing and notes a diagnostic.
#[verifier::rlimit(100)]
#[verifier::spinoff_prover]
pub fn do_beam(
    items: &Vec<(RItemBeamData, NPoint)>,
    style: &Style,
    diags: &mut Vec<Diagnostic>,
) -> (r: Vec<GraphicItem>)
    requires
        items.len() >= 1,
        forall|i: int| 0 <= i < items.deep_view().len() ==> {
            &&& beam_data_ok((#[trigger] items.deep_view()[i]).0)
            &&& point_ok(items.deep_view()[i].1)
        },
        items.deep_view().last().0.note_durations is Some,
        style@.wf(),
    ensures
        r.deep_view() == do_beam_view(items.deep_view(), style@).0,
        final(diags)@ == old(diags)@ + do_beam_view(items.deep_view(), style@).1,
{
    let ghost iv = items.deep_view();
    let ghost spec_pair = do_beam_view(iv, style@);
    if items.len() == 1 {
        diags.push(Diagnostic::SingleEventBeamGroup);
        proof {
            assert(diags@ =~= old(diags)@ + spec_pair.1);
        }
        let empty: Vec<GraphicItem> = Vec::new();
        proof {
            assert(empty.deep_view() =~= spec_pair.0);
        }
        return empty;
    }
    let lastidx = items.len() - 1;
    proof {
        assert(iv[0] == items@[0].deep_view());
        assert(iv[lastidx as int] == items@[lastidx as int].deep_view());
    }
    let sign_dir = items[0].0.direction;
    let fadj = get_head_x_adjustment(&items[0].0, style);
    let fx = items[0].1.0 + fadj;
    let fty = stem_tip_y_i64(&items[0].0, items[0].1.1, style, sign_dir);
    let fbop = stem_bop_y_i64(&items[0].0, items[0].1.1, style);
    let first_stem = stem_segment_i64(items[0].0.direction, fx, fty, fbop, style);
    let ladj = get_head_x_adjustment(&items[lastidx].0, style);
    let lx = items[lastidx].1.0 + ladj;
    let lty = stem_tip_y_i64(&items[lastidx].0, items[lastidx].1.1, style, sign_dir);
    let lbop = stem_bop_y_i64(&items[lastidx].0, items[lastidx].1.1, style);
    let last_stem = stem_segment_i64(items[lastidx].0.direction, lx, lty, lbop, style);
    let w: i64 = lx - fx;
    let den: i64 = if w >= 1 {
        w
    } else {
        1
    };
    let ghost tips_spec = beam_tips(iv, style@);
    let ghost mids_spec = Seq::new(
        (iv.len() - 2) as nat,
        |k: int|
            stem_segment(
                iv[k + 1].0.direction,
                tips_spec[k + 1].0,
                tips_spec[k + 1].1,
                stem_bop_y(iv[k + 1].0, iv[k + 1].1.y, style@),
                style@,
            ),
    );
    proof {
        assert(fx as int == stem_x(iv[0].0, iv[0].1.x, style@));
        assert(lx as int == stem_x(iv[lastidx as int].0, iv[lastidx as int].1.x, style@));
        assert(den as int == beam_den(lx - fx));
        assert(tips_spec[0] == (fx as int, fty as int));
        assert(tips_spec[lastidx as int] == (lx as int, lty as int));
    }
    let mut stems: Vec<GraphicItem> = crate::prim::one_item(first_stem);
    push_item(&mut stems, last_stem);
    let mut tips: Vec<NPoint> = crate::prim::one_item(NPoint(fx, fty));
    let mut i: usize = 1;
    while i < lastidx
        invariant
            1 <= i <= lastidx,
            lastidx == items.len() - 1,
            items.len() >= 2,
            iv == items.deep_view(),
            forall|j: int| 0 <= j < iv.len() ==> {
                &&& beam_data_ok((#[trigger] iv[j]).0)
                &&& point_ok(iv[j].1)
            },
            style@.wf(),
            tips_spec == beam_tips(iv, style@),
            mids_spec == Seq::new(
                (iv.len() - 2) as nat,
                |k: int|
                    stem_segment(
                        iv[k + 1].0.direction,
                        tips_spec[k + 1].0,
                        tips_spec[k + 1].1,
                        stem_bop_y(iv[k + 1].0, iv[k + 1].1.y, style@),
                        style@,
                    ),
            ),
            -2000000 <= fx <= 2000000,
            -2000000 <= lx <= 2000000,
            -22000000 <= fty <= 22000000,
            -22000000 <= lty <= 22000000,
            fty as int == tips_spec[0].1,
            lty as int == tips_spec[lastidx as int].1,
            fx as int == tips_spec[0].0,
            lx as int == tips_spec[lastidx as int].0,
            -300000 <= ladj <= 300000,
            ladj as int == head_x_adjustment(iv[lastidx as int].0, style@),
            1 <= den <= 4000000,
            den as int == beam_den(lx - fx),
            stems.deep_view() =~= seq![first_stem@, last_stem@] + mids_spec.take(i - 1),
            first_stem@ == stem_segment(
                iv[0].0.direction,
                tips_spec[0].0,
                tips_spec[0].1,
                stem_bop_y(iv[0].0, iv[0].1.y, style@),
                style@,
            ),
            last_stem@ == stem_segment(
                iv[lastidx as int].0.direction,
                tips_spec[lastidx as int].0,
                tips_spec[lastidx as int].1,
                stem_bop_y(iv[lastidx as int].0, iv[lastidx as int].1.y, style@),
                style@,
            ),
            pts_of(tips.deep_view()) =~= tips_spec.take(i as int),
            tips_in_range(tips.deep_view()),
        decreases lastidx - i,
    {
        proof {
            assert(iv[i as int] == items@[i as int].deep_view());
        }
        let mdata = &items[i].0;
        let manchor = items[i].1;
        let mx = manchor.0 + ladj;
        let dx: i64 = mx - fx;
        let num: i64 = if dx < 0 {
            0
        } else if dx > den {
            den
        } else {
            dx
        };
        let mtip = lerp_wide(fty, lty, num, den);
        proof {
            crate::geom::lemma_lerp_between(fty as int, lty as int, num as int, den as int);
            assert(tips_spec[i as int] == (mx as int, mtip as int));
        }
        let mbop = stem_bop_y_i64(mdata, manchor.1, style);
        let mid_stem = stem_segment_i64(mdata.direction, mx, mtip, mbop, style);
        push_item(&mut stems, mid_stem);
        let ghost tips_before = tips.deep_view();
        push_item(&mut tips, NPoint(mx, mtip));
        proof {
            assert(mids_spec.take(i as int) =~= mids_spec.take(i - 1).push(mids_spec[i - 1]));
            assert(mids_spec[i - 1] == mid_stem@);
            let after = tips.deep_view();
            assert(pts_of(tips_before).len() == tips_before.len());
            assert(tips_spec.take(i as int).len() == i as int);
            assert forall|j: int| 0 <= j < pts_of(after).len() implies pts_of(after)[j]
                == tips_spec.take(i as int + 1)[j] by {
                if j < i as int {
                    assert(after[j] == tips_before[j]);
                    assert(pts_of(tips_before)[j] == tips_spec[j]);
                } else {
                    assert(after[j] == NPoint(mx, mtip)@);
                }
            }
            assert(pts_of(tips.deep_view()) =~= tips_spec.take(i as int + 1));
        }
        i += 1;
    }
    let ghost tips_before = tips.deep_view();
    push_item(&mut tips, NPoint(lx, lty));
    proof {
        let after = tips.deep_view();
        assert(pts_of(tips_before).len() == tips_before.len());
        assert(tips_spec.take(lastidx as int).len() == lastidx as int);
        assert forall|j: int| 0 <= j < pts_of(after).len() implies pts_of(after)[j]
            == tips_spec[j] by {
            if j < lastidx as int {
                assert(after[j] == tips_before[j]);
                assert(pts_of(tips_before)[j] == tips_spec[j]);
            } else {
                assert(after[j] == NPoint(lx, lty)@);
            }
        }
        assert(pts_of(tips.deep_view()) =~= tips_spec);
        assert(stems.deep_view() =~= seq![first_stem@, last_stem@] + mids_spec.take(
            lastidx - 1,
        ));
        assert(mids_spec.take(lastidx - 1) =~= mids_spec);
        assert(stems.deep_view() == group_stems(iv, style@));
    }
    let sub: Vec<GraphicItem>;
    match &items[lastidx].0.note_durations {
        Some(durs) => {
            proof {
                assert(iv[lastidx as int].0.note_durations == Some(durs@));
            }
            sub = do_sub_beams(&tips, items[lastidx].0.direction, durs, style, diags);
        },
        None => {
            proof {
                assert(false);
            }
            sub = Vec::new();
        },
    }
    let mut out = stems;
    append_items(&mut out, sub);
    proof {
        assert(out.deep_view() =~= spec_pair.0);
    }
    out
}

/// Beam slope linearity: within a group, a middle event's beam-contact y
/// is the linear interpolation between the first and last stem tips at
/// its horizontal fraction of the span.
pub proof fn lemma_beam_slope_linearity(
    items: Seq<(RItemBeamDataView, NPointView)>,
    s: StyleView,
    i: int,
)
    requires
        items.len() >= 2,
        0 < i < items.len() - 1,
    ensures
        ({
            let tips = beam_tips(items, s);
            let last = items.len() - 1;
            let den = beam_den(tips[last].0 - tips[0].0);
            tips[i].1 == lerp(tips[0].1, tips[last].1, clamp_num(tips[i].0 - tips[0].0, den), den)
        }),
{
}

/// A middle stem exactly halfway across the span contacts the beam
/// exactly halfway between the two tips, up to the halving division.
pub proof fn lemma_beam_midpoint(y1: int, y2: int, dx: int)
    requires
        dx >= 1,
    ensures
        lerp(y1, y2, clamp_num(dx, beam_den(2 * dx)), beam_den(2 * dx)) == y1 + div_trunc(
            y2 - y1,
            2,
        ),
{
    crate::geom::lemma_lerp_midpoint(y1, y2, dx);
}

/// Sub-beam pattern coverage: a recognized duration tuple that fits its
/// group draws exactly its documented secondary segments at the
/// documented sides, and no diagnostic; an unlisted or ill-fitting tuple
/// draws only the primary beam and notes one diagnostic.
pub proof fn lemma_sub_beam_pattern_coverage(
    tips: Seq<(int, int)>,
    dir: DirUD,
    durations: Seq<Duration>,
    s: StyleView,
)
    requires
        tips.len() >= 2,
    ensures
        ({
            let plan = sub_beam_plan(weights_of(durations));
            let fits = plan_fits(plan, tips.len() as int);
            let sx = sixteenth_points(tips, dir, s);
            let out = sub_beams_view(tips, dir, durations, s);
            &&& (plan == SubBeamPlan::Unrecognized || !fits) ==> out.0.len() == 1 && out.1
                =~= seq![Diagnostic::UnhandledSubBeamPattern]
            &&& (plan != SubBeamPlan::Unrecognized && fits) ==> out.1 =~= Seq::<Diagnostic>::empty()
            &&& (plan == SubBeamPlan::FullSpan && fits) ==> out.0.len() == 2
            &&& (plan == SubBeamPlan::RightPair && fits) ==> out.0 =~= seq![out.0[0]]
                + rightside_view(sx[0], sx[1], dir, s)
            &&& (plan == SubBeamPlan::LeftPair && fits) ==> out.0 =~= seq![out.0[0]]
                + leftside_view(sx[0], sx[1], dir, s)
            &&& (plan == SubBeamPlan::SpanFirstPair && fits) ==> out.0 =~= seq![out.0[0]]
                + span_view(sx[0], sx[1], dir, s)
            &&& (plan == SubBeamPlan::SpanSecondPair && fits) ==> out.0 =~= seq![out.0[0]]
                + span_view(sx[1], sx[2], dir, s)
            &&& (plan == SubBeamPlan::SplitPair && fits) ==> out.0 =~= seq![out.0[0]]
                + leftside_view(sx[0], sx[1], dir, s) + rightside_view(sx[1], sx[2], dir, s)
        }),
{
    let plan = sub_beam_plan(weights_of(durations));
    let fits = plan_fits(plan, tips.len() as int);
    let out = sub_beams_view(tips, dir, durations, s);
    if plan != SubBeamPlan::Unrecognized && fits {
        match plan {
            SubBeamPlan::FullSpan => {},
            SubBeamPlan::RightPair => {
                assert(out.0 =~= seq![out.0[0]] + rightside_view(
                    sixteenth_points(tips, dir, s)[0],
                    sixteenth_points(tips, dir, s)[1],
                    dir,
                    s,
                ));
            },
            SubBeamPlan::LeftPair => {
                assert(out.0 =~= seq![out.0[0]] + leftside_view(
                    sixteenth_points(tips, dir, s)[0],
                    sixteenth_points(tips, dir, s)[1],
                    dir,
                    s,
                ));
            },
            SubBeamPlan::SpanFirstPair => {
                assert(out.0 =~= seq![out.0[0]] + span_view(
                    sixteenth_points(tips, dir, s)[0],
                    sixteenth_points(tips, dir, s)[1],
                    dir,
                    s,
                ));
            },
            SubBeamPlan::SpanSecondPair => {
                assert(out.0 =~= seq![out.0[0]] + span_view(
                    sixteenth_points(tips, dir, s)[1],
                    sixteenth_points(tips, dir, s)[2],
                    dir,
                    s,
                ));
            },
            SubBeamPlan::SplitPair => {
                assert(out.0 =~= seq![out.0[0]] + leftside_view(
                    sixteenth_points(tips, dir, s)[0],
                    sixteenth_points(tips, dir, s)[1],
                    dir,
                    s,
                ) + rightside_view(
                    sixteenth_points(tips, dir, s)[1],
                    sixteenth_points(tips, dir, s)[2],
                    dir,
                    s,
                ));
            },
            SubBeamPlan::Unrecognized => {},
        }
    }
}

} // verus!
