use crate::geom::{div_trunc, div_trunc_i64, lemma_div_trunc_exact, NPoint, NRect};
use crate::model::{
    Diagnostic, DirUD, dir_sign, NRectExtView, NRectType, RenderError, RItemView, TieFromType,
    TiePlacement, TieToType,
};
use crate::prim::{
    Color, Fill, GraphicItem, GraphicItemView, PathCacheInfo, PathSegment, PathSegmentView,
    Stroke, StrokeView,
};
use crate::style::{Style, StyleView};
use vstd::prelude::*;

verus! {

/// One coordinate of a cubic bezier sampled at parameter `i / n`, in the
/// exact integer form: the real-valued polynomial is scaled by `n³` and
/// divided back out, truncating toward zero.  The grouping of the
/// products mirrors the evaluation order of the executable code.
pub open spec fn bezier_coord(a1: int, c1: int, c2: int, a2: int, n: int, i: int) -> int {
    let k3 = a2 + 3 * (c1 - c2) - a1;
    let k2 = a1 - 2 * c1 + c2;
    let k1 = c1 - a1;
    div_trunc(
        i * i * i * k3 + 3 * ((i * i * n) * k2) + 3 * ((i * (n * n)) * k1) + (n * n * n) * a1,
        n * n * n,
    )
}

/// The `n + 1` sample points of a cubic bezier from `a1` over `c1`, `c2`
/// to `a2`; the final sample is the end anchor itself.
pub open spec fn bezier_points(
    a1: (int, int),
    c1: (int, int),
    c2: (int, int),
    a2: (int, int),
    n: int,
) -> Seq<(int, int)> {
    Seq::new(
        (n + 1) as nat,
        |i: int|
            if i == n {
                a2
            } else {
                (
                    bezier_coord(a1.0, c1.0, c2.0, a2.0, n, i),
                    bezier_coord(a1.1, c1.1, c2.1, a2.1, n, i),
                )
            },
    )
}

/// The first sample of a bezier is its start anchor.
pub proof fn lemma_bezier_starts_at_anchor(a1: int, c1: int, c2: int, a2: int, n: int)
    requires
        n >= 1,
    ensures
        bezier_coord(a1, c1, c2, a2, n, 0) == a1,
{
    let k3 = a2 + 3 * (c1 - c2) - a1;
    let k2 = a1 - 2 * c1 + c2;
    let k1 = c1 - a1;
    assert(0 * 0 * 0 * k3 == 0 && 3 * ((0 * 0 * n) * k2) == 0 && 3 * ((0 * (n * n)) * k1) == 0)
        by (nonlinear_arith);
    assert(n * n * n >= 1) by (nonlinear_arith)
        requires
            n >= 1,
    ;
    assert((n * n * n) * a1 == a1 * (n * n * n)) by (nonlinear_arith);
    lemma_div_trunc_exact(a1, n * n * n);
}

/// The sample points of the forward and return curves of a tie, flattened
/// into one closed path: a move to the first forward sample, lines
/// through the rest, lines through the return samples, and a close.
pub open spec fn tie_path_ops(
    from: (int, int),
    from2: (int, int),
    to2: (int, int),
    to: (int, int),
    thickness_off: int,
    n: int,
) -> Seq<PathSegmentView> {
    let p1 = bezier_points(from, from2, to2, to, n);
    let p2 = bezier_points(
        to,
        (to2.0, to2.1 + thickness_off),
        (from2.0, from2.1 + thickness_off),
        from,
        n,
    );
    seq![PathSegmentView::M(p1[0].0, p1[0].1)] + Seq::new(
        n as nat,
        |i: int| PathSegmentView::L(p1[i + 1].0, p1[i + 1].1),
    ) + Seq::new(n as nat, |i: int| PathSegmentView::L(p2[i + 1].0, p2[i + 1].1)) + seq![
        PathSegmentView::Z,
    ]
}

/// Tie symmetry: each half of the tie outline samples `n + 1` points,
/// the outline holds `2n + 2` operations, and the polygon is closed: it
/// starts and ends at the from-anchor.
pub proof fn lemma_tie_polygon_shape(
    from: (int, int),
    from2: (int, int),
    to2: (int, int),
    to: (int, int),
    thickness_off: int,
    n: int,
)
    requires
        n >= 1,
    ensures
        ({
            let ops = tie_path_ops(from, from2, to2, to, thickness_off, n);
            &&& bezier_points(from, from2, to2, to, n).len() == n + 1
            &&& ops.len() == 2 * n + 2
            &&& ops[0] == PathSegmentView::M(from.0, from.1)
            &&& ops[2 * n] == PathSegmentView::L(from.0, from.1)
            &&& ops[2 * n + 1] == PathSegmentView::Z
        }),
{
    let ops = tie_path_ops(from, from2, to2, to, thickness_off, n);
    lemma_bezier_starts_at_anchor(from.0, from2.0, to2.0, to.0, n);
    lemma_bezier_starts_at_anchor(from.1, from2.1, to2.1, to.1, n);
    let p2 = bezier_points(
        to,
        (to2.0, to2.1 + thickness_off),
        (from2.0, from2.1 + thickness_off),
        from,
        n,
    );
    assert(p2[n] == from);
    assert(ops[2 * n] == PathSegmentView::L(p2[n].0, p2[n].1));
}

/// The data a standard tie-from marker leaves behind for its partner:
/// the `(identity, level)` key, the marker's rectangle and directions,
/// and the id of the owning event.
#[derive(Clone, Copy, Debug, PartialEq, Eq, Structural)]
pub struct TieFromEntry {
    /// Identity of the tied note.
    pub note_id: u64,
    /// Voice level of the tie.
    pub level: i8,
    /// The marker's rectangle, local to its owning event.
    pub rect: NRect,
    /// Stem direction of the from-note.
    pub note_direction: DirUD,
    /// Bow direction of the tie.
    pub tie_direction: DirUD,
    /// Vertical stacking placement of the tie.
    pub placement: TiePlacement,
    /// Arena id of the owning event.
    pub event: usize,
}

/// The mathematical value of a tie-from entry.
pub struct TieFromEntryView {
    pub note_id: u64,
    pub level: i8,
    pub rect: crate::geom::NRectView,
    pub note_direction: DirUD,
    pub tie_direction: DirUD,
    pub placement: TiePlacement,
    pub event: usize,
}

impl View for TieFromEntry {
    type V = TieFromEntryView;

    open spec fn view(&self) -> TieFromEntryView {
        TieFromEntryView {
            note_id: self.note_id,
            level: self.level,
            rect: self.rect@,
            note_direction: self.note_direction,
            tie_direction: self.tie_direction,
            placement: self.placement,
            event: self.event,
        }
    }
}

impl DeepView for TieFromEntry {
    type V = TieFromEntryView;

    open spec fn deep_view(&self) -> TieFromEntryView {
        self.view()
    }
}

/// The latest entry under a `(identity, level)` key, mirroring that a
/// later insert under the same key replaces an earlier one.
pub open spec fn find_tie_from(entries: Seq<TieFromEntryView>, id: u64, level: i8) -> Option<
    TieFromEntryView,
>
    decreases entries.len(),
{
    if entries.len() == 0 {
        None
    } else if entries.last().note_id == id && entries.last().level == level {
        Some(entries.last())
    } else {
        find_tie_from(entries.drop_last(), id, level)
    }
}

/// Tie lookup ordering: a `(identity, level)` key resolves exactly when
/// some tie-from marker inserted it earlier in the traversal.
pub proof fn lemma_find_tie_from_iff(entries: Seq<TieFromEntryView>, id: u64, level: i8)
    ensures
        find_tie_from(entries, id, level) is Some <==> exists|i: int|
            0 <= i < entries.len() && (#[trigger] entries[i]).note_id == id && entries[i].level
                == level,
    decreases entries.len(),
{
    if entries.len() > 0 {
        lemma_find_tie_from_iff(entries.drop_last(), id, level);
        if entries.last().note_id == id && entries.last().level == level {
            assert(entries[entries.len() - 1].note_id == id);
        } else {
            if find_tie_from(entries.drop_last(), id, level) is Some {
                let rest = entries.drop_last();
                let i = choose|i: int|
                    0 <= i < rest.len() && (#[trigger] rest[i]).note_id == id && rest[i].level
                        == level;
                assert(entries[i].note_id == id && entries[i].level == level);
            }
            if exists|i: int|
                0 <= i < entries.len() && (#[trigger] entries[i]).note_id == id && entries[i].level
                    == level {
                let i = choose|i: int|
                    0 <= i < entries.len() && (#[trigger] entries[i]).note_id == id
                        && entries[i].level == level;
                assert(i < entries.len() - 1);
                assert(entries.drop_last()[i].note_id == id && entries.drop_last()[i].level
                    == level);
            }
        }
    }
}

/// The smaller of two values, as the curve clamping uses it.
pub open spec fn min_int(a: int, b: int) -> int {
    if a < b {
        a
    } else {
        b
    }
}

/// The tie polygon of one resolved from/to pair, given the two owning
/// events' absolute anchors.  Anchors shift down for `mid` and `bottom`
/// placement; the horizontal nudge per (direction x placement) pair is
/// an enumerated table; control points move inward by at most one
/// `SPACE` and outward by a span-capped bow height.
pub open spec fn tie_item_view(
    entry: TieFromEntryView,
    fx: int,
    fy: int,
    tx: int,
    ty: int,
    to_rect: crate::geom::NRectView,
    s: StyleView,
) -> GraphicItemView {
    let from_x0 = fx + entry.rect.x;
    let from_y0 = fy + entry.rect.y;
    let to_x0 = tx + to_rect.x + to_rect.w;
    let to_y0 = ty + to_rect.y;
    let from_y = match entry.placement {
        TiePlacement::Top => from_y0,
        TiePlacement::Mid => from_y0 + s.tie_space,
        TiePlacement::Bottom => from_y0 + s.tie_space_bottom,
    };
    let to_y = match entry.placement {
        TiePlacement::Top => to_y0,
        TiePlacement::Mid => to_y0 + s.tie_space,
        TiePlacement::Bottom => to_y0 + s.tie_space_bottom,
    };
    let from_x = match (entry.note_direction, entry.placement) {
        (DirUD::Up, TiePlacement::Top) => from_x0 + s.tie_from_width,
        (DirUD::Up, TiePlacement::Mid) => from_x0 + s.tie_from_width,
        (DirUD::Up, TiePlacement::Bottom) => from_x0 - s.tie_adjust_x,
        (DirUD::Down, TiePlacement::Top) => from_x0 - s.tie_adjust_x,
        (DirUD::Down, TiePlacement::Mid) => from_x0 + s.tie_from_width,
        (DirUD::Down, TiePlacement::Bottom) => from_x0,
    };
    let to_x = match (entry.note_direction, entry.placement) {
        (DirUD::Up, TiePlacement::Top) => to_x0,
        (DirUD::Up, TiePlacement::Mid) => to_x0 - s.tie_to_width,
        (DirUD::Up, TiePlacement::Bottom) => to_x0 + s.tie_adjust_x,
        (DirUD::Down, TiePlacement::Top) => to_x0 + s.tie_adjust_x,
        (DirUD::Down, TiePlacement::Mid) => to_x0 - s.tie_to_width,
        (DirUD::Down, TiePlacement::Bottom) => to_x0 - s.tie_to_width,
    };
    let length = to_x - from_x;
    let max_seg = div_trunc(length, 3);
    let inward = min_int(s.space(), max_seg);
    let from_x2 = from_x + inward;
    let to_x2 = to_x - inward;
    let tie_height = min_int(s.tie_height, div_trunc(length * s.tie_height, 60));
    let sign = dir_sign(entry.tie_direction);
    let from_y2 = if entry.tie_direction is Down {
        from_y + tie_height
    } else {
        from_y - tie_height
    };
    let to_y2 = if entry.tie_direction is Down {
        to_y + tie_height
    } else {
        to_y - tie_height
    };
    let ops = tie_path_ops(
        (from_x, from_y),
        (from_x2, from_y2),
        (to_x2, to_y2),
        (to_x, to_y),
        sign * s.tie_thickness,
        s.tie_segments,
    );
    GraphicItemView::Path(
        ops,
        StrokeView::Strokestyle(2, Color::Black),
        Fill::Fillstyle(Color::Black),
        PathCacheInfo::NoCache,
    )
}

/// Phase one of the per-item scan: every tie-from marker among the first
/// `k` shapes of an event acts — a standard one inserts its entry, a
/// let-ring or unresolved-in-chunk one notes a diagnostic and inserts
/// nothing.
pub open spec fn phase_a(
    entries: Seq<TieFromEntryView>,
    diags: Seq<Diagnostic>,
    shapes: Seq<NRectExtView>,
    k: int,
    ev_id: usize,
    itemidx: usize,
) -> (Seq<TieFromEntryView>, Seq<Diagnostic>)
    decreases k,
{
    if k <= 0 {
        (entries, diags)
    } else {
        let prev = phase_a(entries, diags, shapes, k - 1, ev_id, itemidx);
        match shapes[k - 1].kind {
            NRectType::TieFrom(id, level, ttype, _dur, ndir, tdir, placement) => match ttype {
                TieFromType::Standard => (
                    prev.0.push(
                        TieFromEntryView {
                            note_id: id,
                            level: level,
                            rect: shapes[k - 1].rect,
                            note_direction: ndir,
                            tie_direction: tdir,
                            placement: placement,
                            event: ev_id,
                        },
                    ),
                    prev.1,
                ),
                TieFromType::LetRing => (prev.0, prev.1.push(Diagnostic::TieLetRing(itemidx))),
                TieFromType::UnresolvedInChunk => (
                    prev.0,
                    prev.1.push(Diagnostic::TieUnresolvedInChunk(itemidx)),
                ),
            },
            _ => prev,
        }
    }
}


/// The resolution of one tie-to marker: its key must have been inserted
/// by an earlier tie-from, and both owners must carry coordinates.
pub open spec fn resolve_one(
    events: Seq<RItemView>,
    entries: Seq<TieFromEntryView>,
    fid: u64,
    flevel: i8,
    cur_x: Option<int>,
    cur_y: Option<int>,
    to_rect: crate::geom::NRectView,
    s: StyleView,
) -> Result<GraphicItemView, RenderError> {
    match find_tie_from(entries, fid, flevel) {
        None => Err(RenderError::UnresolvedTie(fid, flevel)),
        Some(entry) => {
            let fev = events[entry.event as int];
            match (fev.coord_x, fev.coord_y, cur_x, cur_y) {
                (Some(fx), Some(fy), Some(tx), Some(ty)) => Ok(
                    tie_item_view(entry, fx, fy, tx, ty, to_rect, s),
                ),
                _ => Err(RenderError::MissingCoordinate),
            }
        },
    }
}

/// Phase two of the per-item scan: every tie-to marker among the first
/// `k` shapes resolves.  A resolve marker must find its key among the
/// entries inserted earlier; a miss, a missing coordinate on either
/// owner, or a let-ring tie-to aborts the render.
pub open spec fn phase_b(
    events: Seq<RItemView>,
    entries: Seq<TieFromEntryView>,
    acc: Seq<GraphicItemView>,
    shapes: Seq<NRectExtView>,
    k: int,
    cur_x: Option<int>,
    cur_y: Option<int>,
    s: StyleView,
) -> Result<Seq<GraphicItemView>, RenderError>
    decreases k,
{
    if k <= 0 {
        Ok(acc)
    } else {
        match phase_b(events, entries, acc, shapes, k - 1, cur_x, cur_y, s) {
            Err(e) => Err(e),
            Ok(acc1) => match shapes[k - 1].kind {
                NRectType::TieTo(ttype) => match ttype {
                    TieToType::ResolveTieFrom(fid, flevel) => match resolve_one(
                        events,
                        entries,
                        fid,
                        flevel,
                        cur_x,
                        cur_y,
                        shapes[k - 1].rect,
                        s,
                    ) {
                        Ok(item) => Ok(acc1.push(item)),
                        Err(e) => Err(e),
                    },
                    TieToType::LetRing => Err(RenderError::LetRingTieUnsupported),
                },
                _ => Ok(acc1),
            },
        }
    }
}

/// The scan state after one slot of a row: an empty slot changes
/// nothing; an event first registers its tie-from markers, then resolves
/// its tie-to markers.
pub open spec fn scan_item(
    events: Seq<RItemView>,
    st: (Seq<TieFromEntryView>, Seq<GraphicItemView>, Seq<Diagnostic>),
    item: Option<usize>,
    itemidx: usize,
    s: StyleView,
) -> Result<(Seq<TieFromEntryView>, Seq<GraphicItemView>, Seq<Diagnostic>), RenderError> {
    match item {
        None => Ok(st),
        Some(id) => {
            let ev = events[id as int];
            let a = phase_a(st.0, st.2, ev.nrects, ev.nrects.len() as int, id, itemidx);
            match phase_b(
                events,
                a.0,
                st.1,
                ev.nrects,
                ev.nrects.len() as int,
                ev.coord_x,
                ev.coord_y,
                s,
            ) {
                Ok(acc2) => Ok((a.0, acc2, a.1)),
                Err(e) => Err(e),
            }
        },
    }
}

/// The scan state after the first `k` slots of a row, starting from
/// empty lookup tables.
pub open spec fn scan_row(
    events: Seq<RItemView>,
    items: Seq<Option<usize>>,
    k: int,
    s: StyleView,
) -> Result<(Seq<TieFromEntryView>, Seq<GraphicItemView>, Seq<Diagnostic>), RenderError>
    decreases k,
{
    if k <= 0 {
        Ok((Seq::empty(), Seq::empty(), Seq::empty()))
    } else {
        match scan_row(events, items, k - 1, s) {
            Err(e) => Err(e),
            Ok(st) => scan_item(events, st, items[k - 1], (k - 1) as usize, s),
        }
    }
}

/// The ties of the first `r` rows: per row, the lookup tables start
/// empty, and the drawn polygons and diagnostics accumulate across rows.
pub open spec fn ties_rows(m: crate::model::RMatrixView, r: int, s: StyleView) -> Result<
    (Seq<GraphicItemView>, Seq<Diagnostic>),
    RenderError,
>
    decreases r,
{
    if r <= 0 {
        Ok((Seq::empty(), Seq::empty()))
    } else {
        match ties_rows(m, r - 1, s) {
            Err(e) => Err(e),
            Ok(st) => match scan_row(m.events, m.rows[r - 1].items, m.rows[r - 1].items.len() as int, s) {
                Err(e) => Err(e),
                Ok(row_st) => Ok((st.0 + row_st.1, st.1 + row_st.2)),
            },
        }
    }
}

/// What the tie resolver draws and reports over a whole layout.
pub open spec fn output_ties_view(m: crate::model::RMatrixView, s: StyleView) -> Result<
    (Seq<GraphicItemView>, Seq<Diagnostic>),
    RenderError,
> {
    ties_rows(m, m.rows.len() as int, s)
}

/// One bezier coordinate on machine integers.
fn bezier_coord_i64(a1: i64, c1: i64, c2: i64, a2: i64, n: i64, ii: i64) -> (r: i64)
    requires
        1 <= n <= 255,
        0 <= ii <= 255,
        -15000000000 <= a1 <= 15000000000,
        -15000000000 <= c1 <= 15000000000,
        -15000000000 <= c2 <= 15000000000,
        -15000000000 <= a2 <= 15000000000,
    ensures
        r == bezier_coord(a1 as int, c1 as int, c2 as int, a2 as int, n as int, ii as int),
{
    let k3 = a2 + 3 * (c1 - c2) - a1;
    let k2 = a1 - 2 * c1 + c2;
    let k1 = c1 - a1;
    proof {
        assert(0 <= ii * ii <= 65025 && 0 <= (ii * ii) * ii <= 16581375) by (nonlinear_arith)
            requires
                0 <= ii <= 255,
        ;
        assert(1 <= n * n <= 65025 && 1 <= (n * n) * n <= 16581375) by (nonlinear_arith)
            requires
                1 <= n <= 255,
        ;
    }
    let i2 = ii * ii;
    let i3 = i2 * ii;
    let nn = n * n;
    let n3 = nn * n;
    proof {
        assert(0 <= i2 * n <= 16581375 && 0 <= ii * nn <= 16581375) by (nonlinear_arith)
            requires
                0 <= i2 <= 65025,
                1 <= n <= 255,
                0 <= ii <= 255,
                1 <= nn <= 65025,
        ;
    }
    let i2n = i2 * n;
    let inn = ii * nn;
    proof {
        assert(-2000000000000000000 <= i3 * k3 <= 2000000000000000000) by (nonlinear_arith)
            requires
                0 <= i3 <= 16581375,
                -120000000000 <= k3 <= 120000000000,
        ;
        assert(-1000000000000000000 <= i2n * k2 <= 1000000000000000000) by (nonlinear_arith)
            requires
                0 <= i2n <= 16581375,
                -60000000000 <= k2 <= 60000000000,
        ;
        assert(-500000000000000000 <= inn * k1 <= 500000000000000000) by (nonlinear_arith)
            requires
                0 <= inn <= 16581375,
                -30000000000 <= k1 <= 30000000000,
        ;
        assert(-250000000000000000 <= n3 * a1 <= 250000000000000000) by (nonlinear_arith)
            requires
                1 <= n3 <= 16581375,
                -15000000000 <= a1 <= 15000000000,
        ;
    }
    let t3 = i3 * k3;
    let t2 = 3 * (i2n * k2);
    let t1 = 3 * (inn * k1);
    let t0 = n3 * a1;
    div_trunc_i64(t3 + t2 + t1 + t0, n3)
}

/// Samples a cubic bezier into `segments` line steps: the `segments + 1`
/// returned points run from the start anchor to the end anchor.
pub fn bezieer(
    anchor1: NPoint,
    control1: NPoint,
    control2: NPoint,
    anchor2: NPoint,
    segments: u8,
) -> (r: Vec<NPoint>)
    requires
        segments >= 1,
        -15000000000 <= anchor1.0 <= 15000000000,
        -15000000000 <= anchor1.1 <= 15000000000,
        -15000000000 <= control1.0 <= 15000000000,
        -15000000000 <= control1.1 <= 15000000000,
        -15000000000 <= control2.0 <= 15000000000,
        -15000000000 <= control2.1 <= 15000000000,
        -15000000000 <= anchor2.0 <= 15000000000,
        -15000000000 <= anchor2.1 <= 15000000000,
    ensures
        r@.len() == segments + 1,
        crate::beams::pts_of(r.deep_view()) == bezier_points(
            (anchor1.0 as int, anchor1.1 as int),
            (control1.0 as int, control1.1 as int),
            (control2.0 as int, control2.1 as int),
            (anchor2.0 as int, anchor2.1 as int),
            segments as int,
        ),
{
    let ghost pspec = bezier_points(
        (anchor1.0 as int, anchor1.1 as int),
        (control1.0 as int, control1.1 as int),
        (control2.0 as int, control2.1 as int),
        (anchor2.0 as int, anchor2.1 as int),
        segments as int,
    );
    let n: i64 = segments as i64;
    let mut coords: Vec<NPoint> = Vec::new();
    let mut i: u8 = 0;
    while i < segments
        invariant
            i <= segments,
            segments >= 1,
            n == segments as i64,
            -15000000000 <= anchor1.0 <= 15000000000,
            -15000000000 <= anchor1.1 <= 15000000000,
            -15000000000 <= control1.0 <= 15000000000,
            -15000000000 <= control1.1 <= 15000000000,
            -15000000000 <= control2.0 <= 15000000000,
            -15000000000 <= control2.1 <= 15000000000,
            -15000000000 <= anchor2.0 <= 15000000000,
            -15000000000 <= anchor2.1 <= 15000000000,
            pspec == bezier_points(
                (anchor1.0 as int, anchor1.1 as int),
                (control1.0 as int, control1.1 as int),
                (control2.0 as int, control2.1 as int),
                (anchor2.0 as int, anchor2.1 as int),
                segments as int,
            ),
            crate::beams::pts_of(coords.deep_view()) =~= pspec.take(i as int),
        decreases segments - i,
    {
        let ii: i64 = i as i64;
        let px = bezier_coord_i64(anchor1.0, control1.0, control2.0, anchor2.0, n, ii);
        let py = bezier_coord_i64(anchor1.1, control1.1, control2.1, anchor2.1, n, ii);
        let q = NPoint(px, py);
        let ghost before = coords.deep_view();
        crate::prim::push_item(&mut coords, q);
        proof {
            assert(crate::beams::pts_of(before).len() == before.len());
            assert(pspec.take(i as int).len() == i as int);
            assert(pspec[i as int] == (px as int, py as int));
            let after = coords.deep_view();
            assert forall|j: int| 0 <= j < crate::beams::pts_of(after).len() implies
                crate::beams::pts_of(after)[j] == pspec.take(i as int + 1)[j] by {
                if j < i as int {
                    assert(after[j] == before[j]);
                    assert(crate::beams::pts_of(before)[j] == pspec[j]);
                } else {
                    assert(after[j] == q@);
                }
            }
            assert(crate::beams::pts_of(coords.deep_view()) =~= pspec.take(i as int + 1));
        }
        i += 1;
    }
    let ghost before = coords.deep_view();
    crate::prim::push_item(&mut coords, anchor2);
    proof {
        assert(crate::beams::pts_of(before).len() == before.len());
        assert(pspec.take(segments as int).len() == segments as int);
        let after = coords.deep_view();
        assert forall|j: int| 0 <= j < crate::beams::pts_of(after).len() implies
            crate::beams::pts_of(after)[j] == pspec[j] by {
            if j < segments as int {
                assert(after[j] == before[j]);
                assert(crate::beams::pts_of(before)[j] == pspec[j]);
            } else {
                assert(after[j] == anchor2@);
                assert(pspec[j] == (anchor2.0 as int, anchor2.1 as int));
            }
        }
        assert(crate::beams::pts_of(coords.deep_view()) =~= pspec);
    }
    coords
}

/// Builds the polygon path of one resolved tie.
#[verifier::rlimit(100)]
#[verifier::spinoff_prover]
fn tie_item_exec(
    entry: TieFromEntry,
    fx: i64,
    fy: i64,
    tx: i64,
    ty: i64,
    to_rect: NRect,
    style: &Style,
) -> (r: GraphicItem)
    requires
        crate::geom::rect_ok(entry@.rect),
        crate::geom::rect_ok(to_rect@),
        -1000000 <= fx <= 1000000,
        -1000000 <= fy <= 1000000,
        -1000000 <= tx <= 1000000,
        -1000000 <= ty <= 1000000,
        style@.wf(),
    ensures
        r@ == tie_item_view(entry@, fx as int, fy as int, tx as int, ty as int, to_rect@, style@),
{
    let step = style.space_step;
    proof {
        assert(1 <= step <= 1000);
    }
    let from_x0 = fx + entry.rect.0;
    let from_y0 = fy + entry.rect.1;
    let to_x0 = tx + to_rect.0 + to_rect.2;
    let to_y0 = ty + to_rect.1;
    let from_y = match entry.placement {
        TiePlacement::Top => from_y0,
        TiePlacement::Mid => from_y0 + style.tie_space,
        TiePlacement::Bottom => from_y0 + style.tie_space_bottom,
    };
    let to_y = match entry.placement {
        TiePlacement::Top => to_y0,
        TiePlacement::Mid => to_y0 + style.tie_space,
        TiePlacement::Bottom => to_y0 + style.tie_space_bottom,
    };
    let from_x = match (entry.note_direction, entry.placement) {
        (DirUD::Up, TiePlacement::Top) => from_x0 + style.tie_from_width,
        (DirUD::Up, TiePlacement::Mid) => from_x0 + style.tie_from_width,
        (DirUD::Up, TiePlacement::Bottom) => from_x0 - style.tie_adjust_x,
        (DirUD::Down, TiePlacement::Top) => from_x0 - style.tie_adjust_x,
        (DirUD::Down, TiePlacement::Mid) => from_x0 + style.tie_from_width,
        (DirUD::Down, TiePlacement::Bottom) => from_x0,
    };
    let to_x = match (entry.note_direction, entry.placement) {
        (DirUD::Up, TiePlacement::Top) => to_x0,
        (DirUD::Up, TiePlacement::Mid) => to_x0 - style.tie_to_width,
        (DirUD::Up, TiePlacement::Bottom) => to_x0 + style.tie_adjust_x,
        (DirUD::Down, TiePlacement::Top) => to_x0 + style.tie_adjust_x,
        (DirUD::Down, TiePlacement::Mid) => to_x0 - style.tie_to_width,
        (DirUD::Down, TiePlacement::Bottom) => to_x0 - style.tie_to_width,
    };
    let length: i64 = to_x - from_x;
    let max_seg = div_trunc_i64(length, 3);
    let space: i64 = 20 * step;
    let inward: i64 = if space < max_seg {
        space
    } else {
        max_seg
    };
    let from_x2 = from_x + inward;
    let to_x2 = to_x - inward;
    proof {
        assert(-700000000000 <= length * style@.tie_height <= 700000000000) by (nonlinear_arith)
            requires
                -7000000 <= length <= 7000000,
                0 <= style@.tie_height <= 100000,
        ;
    }
    let scaled: i64 = length * style.tie_height;
    let capped = div_trunc_i64(scaled, 60);
    proof {
        if scaled >= 0 {
            vstd::arithmetic::div_mod::lemma_div_is_ordered(scaled as int, 700000000000, 60);
            assert(700000000000int / 60 == 11666666666);
        } else {
            vstd::arithmetic::div_mod::lemma_div_is_ordered(-(scaled as int), 700000000000, 60);
            assert(700000000000int / 60 == 11666666666);
        }
    }
    let tie_height: i64 = if style.tie_height < capped {
        style.tie_height
    } else {
        capped
    };
    let from_y2 = match entry.tie_direction {
        DirUD::Down => from_y + tie_height,
        DirUD::Up => from_y - tie_height,
    };
    let to_y2 = match entry.tie_direction {
        DirUD::Down => to_y + tie_height,
        DirUD::Up => to_y - tie_height,
    };
    let tt_off: i64 = match entry.tie_direction {
        DirUD::Down => style.tie_thickness,
        DirUD::Up => -style.tie_thickness,
    };
    proof {
        assert(dir_sign(DirUD::Down) * style@.tie_thickness == style@.tie_thickness)
            by (nonlinear_arith)
            requires
                dir_sign(DirUD::Down) == 1,
        ;
        assert(dir_sign(DirUD::Up) * style@.tie_thickness == -style@.tie_thickness)
            by (nonlinear_arith)
            requires
                dir_sign(DirUD::Up) == -1,
        ;
    }
    let n = style.tie_segments;
    let p1 = bezieer(
        NPoint(from_x, from_y),
        NPoint(from_x2, from_y2),
        NPoint(to_x2, to_y2),
        NPoint(to_x, to_y),
        n,
    );
    let p2 = bezieer(
        NPoint(to_x, to_y),
        NPoint(to_x2, to_y2 + tt_off),
        NPoint(from_x2, from_y2 + tt_off),
        NPoint(from_x, from_y),
        n,
    );
    let ghost ops_spec = tie_path_ops(
        (from_x as int, from_y as int),
        (from_x2 as int, from_y2 as int),
        (to_x2 as int, to_y2 as int),
        (to_x as int, to_y as int),
        (dir_sign(entry.tie_direction) * style@.tie_thickness) as int,
        n as int,
    );
    let ghost p1s = bezier_points(
        (from_x as int, from_y as int),
        (from_x2 as int, from_y2 as int),
        (to_x2 as int, to_y2 as int),
        (to_x as int, to_y as int),
        n as int,
    );
    let ghost p2s = bezier_points(
        (to_x as int, to_y as int),
        (to_x2 as int, to_y2 + tt_off),
        (from_x2 as int, from_y2 + tt_off),
        (from_x as int, from_y as int),
        n as int,
    );
    let mut ops: Vec<PathSegment> = Vec::new();
    proof {
        assert(ops.deep_view() =~= Seq::<PathSegmentView>::empty());
        assert(crate::beams::pts_of(p1.deep_view())[0] == p1s[0]);
    }
    let first = p1[0];
    crate::prim::push_item(&mut ops, PathSegment::M(first.0, first.1));
    let mut k: usize = 1;
    while k < p1.len()
        invariant
            1 <= k <= p1.len(),
            p1@.len() == n + 1,
            n >= 1,
            crate::beams::pts_of(p1.deep_view()) == p1s,
            ops.deep_view() =~= seq![PathSegmentView::M(p1s[0].0, p1s[0].1)] + Seq::new(
                (k - 1) as nat,
                |i: int| PathSegmentView::L(p1s[i + 1].0, p1s[i + 1].1),
            ),
        decreases p1.len() - k,
    {
        proof {
            assert(crate::beams::pts_of(p1.deep_view())[k as int] == p1s[k as int]);
        }
        let q = p1[k];
        crate::prim::push_item(&mut ops, PathSegment::L(q.0, q.1));
        proof {
            assert(ops.deep_view() =~= seq![PathSegmentView::M(p1s[0].0, p1s[0].1)] + Seq::new(
                k as nat,
                |i: int| PathSegmentView::L(p1s[i + 1].0, p1s[i + 1].1),
            ));
        }
        k += 1;
    }
    let mut k: usize = 1;
    while k < p2.len()
        invariant
            1 <= k <= p2.len(),
            p2@.len() == n + 1,
            n >= 1,
            crate::beams::pts_of(p2.deep_view()) == p2s,
            ops.deep_view() =~= seq![PathSegmentView::M(p1s[0].0, p1s[0].1)] + Seq::new(
                n as nat,
                |i: int| PathSegmentView::L(p1s[i + 1].0, p1s[i + 1].1),
            ) + Seq::new((k - 1) as nat, |i: int| PathSegmentView::L(p2s[i + 1].0, p2s[i + 1].1)),
        decreases p2.len() - k,
    {
        proof {
            assert(crate::beams::pts_of(p2.deep_view())[k as int] == p2s[k as int]);
        }
        let q = p2[k];
        crate::prim::push_item(&mut ops, PathSegment::L(q.0, q.1));
        proof {
            assert(ops.deep_view() =~= seq![PathSegmentView::M(p1s[0].0, p1s[0].1)] + Seq::new(
                n as nat,
                |i: int| PathSegmentView::L(p1s[i + 1].0, p1s[i + 1].1),
            ) + Seq::new(k as nat, |i: int| PathSegmentView::L(p2s[i + 1].0, p2s[i + 1].1)));
        }
        k += 1;
    }
    crate::prim::push_item(&mut ops, PathSegment::Z);
    proof {
        assert(ops.deep_view() =~= ops_spec);
    }
    GraphicItem::Path(
        ops,
        Stroke::Strokestyle(2, Color::Black),
        Fill::Fillstyle(Color::Black),
        PathCacheInfo::NoCache,
    )
}

/// When no entry at index `i` or beyond matches, the lookup is settled
/// by the prefix.
proof fn lemma_find_tie_from_take(entries: Seq<TieFromEntryView>, id: u64, level: i8, i: int)
    requires
        0 <= i <= entries.len(),
        forall|j: int|
            i <= j < entries.len() ==> !((#[trigger] entries[j]).note_id == id && entries[j].level
                == level),
    ensures
        find_tie_from(entries, id, level) == find_tie_from(entries.take(i), id, level),
    decreases entries.len() - i,
{
    if i == entries.len() {
        assert(entries.take(i) =~= entries);
    } else {
        let shorter = entries.drop_last();
        assert(!(entries[entries.len() - 1].note_id == id && entries[entries.len() - 1].level
            == level));
        assert(find_tie_from(entries, id, level) == find_tie_from(shorter, id, level));
        assert(shorter =~= entries.take(entries.len() - 1));
        assert forall|j: int|
            i <= j < shorter.len() implies !((#[trigger] shorter[j]).note_id == id
            && shorter[j].level == level) by {
            assert(shorter[j] == entries[j]);
        }
        lemma_find_tie_from_take(shorter, id, level, i);
        assert(shorter.take(i) =~= entries.take(i));
    }
}

/// Looks up the latest entry under a `(identity, level)` key.
fn find_entry(entries: &Vec<TieFromEntry>, id: u64, level: i8) -> (r: Option<TieFromEntry>)
    ensures
        match r {
            Some(e) => find_tie_from(entries.deep_view(), id, level) == Some(e@),
            None => find_tie_from(entries.deep_view(), id, level) is None,
        },
{
    let ghost ev = entries.deep_view();
    let mut i: usize = entries.len();
    while i > 0
        invariant
            i <= entries.len(),
            ev == entries.deep_view(),
            forall|j: int|
                i <= j < ev.len() ==> !((#[trigger] ev[j]).note_id == id && ev[j].level == level),
        decreases i,
    {
        i = i - 1;
        proof {
            assert(ev[i as int] == entries@[i as int]@);
        }
        if entries[i].note_id == id && entries[i].level == level {
            proof {
                lemma_find_tie_from_take(ev, id, level, i as int + 1);
                let pre = ev.take(i as int + 1);
                assert(pre.len() == i + 1);
                assert(pre.last() == ev[i as int]);
                assert(find_tie_from(pre, id, level) == Some(ev[i as int]));
            }
            return Some(entries[i]);
        }
    }
    proof {
        lemma_find_tie_from_take(ev, id, level, 0);
        assert(ev.take(0) =~= Seq::<TieFromEntryView>::empty());
    }
    None
}

/// Once phase two has failed, scanning further shapes keeps the failure.
proof fn lemma_phase_b_persists(
    events: Seq<RItemView>,
    entries: Seq<TieFromEntryView>,
    acc: Seq<GraphicItemView>,
    shapes: Seq<NRectExtView>,
    k1: int,
    k2: int,
    cur_x: Option<int>,
    cur_y: Option<int>,
    s: StyleView,
)
    requires
        0 <= k1 <= k2,
        phase_b(events, entries, acc, shapes, k1, cur_x, cur_y, s) is Err,
    ensures
        phase_b(events, entries, acc, shapes, k2, cur_x, cur_y, s) == phase_b(
            events,
            entries,
            acc,
            shapes,
            k1,
            cur_x,
            cur_y,
            s,
        ),
    decreases k2 - k1,
{
    if k2 > k1 {
        lemma_phase_b_persists(events, entries, acc, shapes, k1, k2 - 1, cur_x, cur_y, s);
    }
}

/// Once a row scan has failed, scanning further slots keeps the failure.
proof fn lemma_scan_row_persists(
    events: Seq<RItemView>,
    items: Seq<Option<usize>>,
    k1: int,
    k2: int,
    s: StyleView,
)
    requires
        0 <= k1 <= k2,
        scan_row(events, items, k1, s) is Err,
    ensures
        scan_row(events, items, k2, s) == scan_row(events, items, k1, s),
    decreases k2 - k1,
{
    if k2 > k1 {
        lemma_scan_row_persists(events, items, k1, k2 - 1, s);
    }
}

/// Once some row has failed, scanning further rows keeps the failure.
proof fn lemma_ties_rows_persists(m: crate::model::RMatrixView, r1: int, r2: int, s: StyleView)
    requires
        0 <= r1 <= r2,
        ties_rows(m, r1, s) is Err,
    ensures
        ties_rows(m, r2, s) == ties_rows(m, r1, s),
    decreases r2 - r1,
{
    if r2 > r1 {
        lemma_ties_rows_persists(m, r1, r2 - 1, s);
    }
}


/// A found entry is one of the inserted entries.
proof fn lemma_find_tie_from_in(entries: Seq<TieFromEntryView>, id: u64, level: i8)
    ensures
        match find_tie_from(entries, id, level) {
            Some(e) => exists|i: int| 0 <= i < entries.len() && entries[i] == e,
            None => true,
        },
    decreases entries.len(),
{
    if entries.len() > 0 {
        if entries.last().note_id == id && entries.last().level == level {
            assert(entries[entries.len() - 1] == entries.last());
        } else {
            lemma_find_tie_from_in(entries.drop_last(), id, level);
            match find_tie_from(entries.drop_last(), id, level) {
                Some(e) => {
                    let rest = entries.drop_last();
                    let i = choose|i: int| 0 <= i < rest.len() && rest[i] == e;
                    assert(entries[i] == e);
                },
                None => {},
            }
        }
    }
}

/// Resolves one tie-to marker against the entries registered so far.
fn resolve_one_exec(
    matrix: &crate::model::RMatrix,
    entries: &Vec<TieFromEntry>,
    fid: u64,
    flevel: i8,
    cur_x: Option<i64>,
    cur_y: Option<i64>,
    to_rect: NRect,
    style: &Style,
) -> (r: Result<GraphicItem, RenderError>)
    requires
        crate::model::matrix_ok(matrix@),
        style@.wf(),
        crate::geom::rect_ok(to_rect@),
        forall|q: int| 0 <= q < entries.deep_view().len() ==> {
            &&& (#[trigger] entries.deep_view()[q]).event < matrix@.events.len()
            &&& crate::geom::rect_ok(entries.deep_view()[q].rect)
        },
        match cur_x {
            Some(x) => -1000000 <= x <= 1000000,
            None => true,
        },
        match cur_y {
            Some(y) => -1000000 <= y <= 1000000,
            None => true,
        },
    ensures
        ({
            let spec = resolve_one(
                matrix@.events,
                entries.deep_view(),
                fid,
                flevel,
                match cur_x {
                    Some(x) => Some(x as int),
                    None => None,
                },
                match cur_y {
                    Some(y) => Some(y as int),
                    None => None,
                },
                to_rect@,
                style@,
            );
            match r {
                Ok(item) => spec == Ok::<_, RenderError>(item@),
                Err(e) => spec == Err::<GraphicItemView, _>(e),
            }
        }),
{
    match find_entry(entries, fid, flevel) {
        None => Err(RenderError::UnresolvedTie(fid, flevel)),
        Some(entry) => {
            proof {
                lemma_find_tie_from_in(entries.deep_view(), fid, flevel);
                let i = choose|i: int|
                    0 <= i < entries.deep_view().len() && entries.deep_view()[i] == entry@;
                assert(entry@.event < matrix@.events.len());
                assert(crate::geom::rect_ok(entry@.rect));
                assert(crate::model::item_ok(matrix@.events[entry@.event as int]));
            }
            let fev = &matrix.events[entry.event];
            match (fev.coord_x, fev.coord_y, cur_x, cur_y) {
                (Some(fx), Some(fy), Some(tx), Some(ty)) => Ok(
                    tie_item_exec(entry, fx, fy, tx, ty, to_rect, style),
                ),
                _ => Err(RenderError::MissingCoordinate),
            }
        },
    }
}

/// A failure while resolving one event's tie-to markers is the failure
/// of the whole render pass.
proof fn lemma_tie_error_propagates(
    m: crate::model::RMatrixView,
    s: StyleView,
    rowidx: int,
    itemidx: usize,
    id: usize,
    st0: (Seq<TieFromEntryView>, Seq<GraphicItemView>, Seq<Diagnostic>),
    jend: int,
    e: RenderError,
)
    requires
        0 <= rowidx < m.rows.len(),
        itemidx < m.rows[rowidx].items.len(),
        ties_rows(m, rowidx, s) is Ok,
        scan_row(m.events, m.rows[rowidx].items, itemidx as int, s) == Ok::<_, RenderError>(st0),
        m.rows[rowidx].items[itemidx as int] == Some(id),
        0 <= jend <= m.events[id as int].nrects.len(),
        phase_b(
            m.events,
            phase_a(
                st0.0,
                st0.2,
                m.events[id as int].nrects,
                m.events[id as int].nrects.len() as int,
                id,
                itemidx,
            ).0,
            st0.1,
            m.events[id as int].nrects,
            jend,
            m.events[id as int].coord_x,
            m.events[id as int].coord_y,
            s,
        ) == Err::<Seq<GraphicItemView>, RenderError>(e),
    ensures
        output_ties_view(m, s) == Err::<(Seq<GraphicItemView>, Seq<Diagnostic>), RenderError>(e),
{
    let ev = m.events[id as int];
    let a = phase_a(st0.0, st0.2, ev.nrects, ev.nrects.len() as int, id, itemidx);
    lemma_phase_b_persists(
        m.events,
        a.0,
        st0.1,
        ev.nrects,
        jend,
        ev.nrects.len() as int,
        ev.coord_x,
        ev.coord_y,
        s,
    );
    assert(scan_item(m.events, st0, m.rows[rowidx].items[itemidx as int], itemidx, s)
        == Err::<(Seq<TieFromEntryView>, Seq<GraphicItemView>, Seq<Diagnostic>), RenderError>(e));
    assert(scan_row(m.events, m.rows[rowidx].items, itemidx as int + 1, s) is Err);
    lemma_scan_row_persists(
        m.events,
        m.rows[rowidx].items,
        itemidx as int + 1,
        m.rows[rowidx].items.len() as int,
        s,
    );
    assert(ties_rows(m, rowidx + 1, s) == Err::<(Seq<GraphicItemView>, Seq<Diagnostic>), RenderError>(e));
    lemma_ties_rows_persists(m, rowidx + 1, m.rows.len() as int, s);
}

/// Resolves the ties of a whole layout, row by row: tie-from markers are
/// registered left to right, tie-to markers resolve against them, and
/// each resolved pair becomes one closed tie polygon.  A tie-to whose key
/// was never inserted, a let-ring tie-to, or a missing coordinate on an
/// owner aborts the render with the precise cause.
#[verifier::rlimit(100)]
#[verifier::spinoff_prover]
pub fn output_ties(matrix: &crate::model::RMatrix, style: &Style, diags: &mut Vec<Diagnostic>) -> (r:
    Result<Vec<GraphicItem>, RenderError>)
    requires
        crate::model::matrix_ok(matrix@),
        style@.wf(),
    ensures
        ({
            let spec = output_ties_view(matrix@, style@);
            match r {
                Ok(v) => {
                    &&& spec is Ok
                    &&& v.deep_view() == spec.unwrap().0
                    &&& final(diags)@ == old(diags)@ + spec.unwrap().1
                },
                Err(e) => spec == Err::<(Seq<GraphicItemView>, Seq<Diagnostic>), RenderError>(e),
            }
        }),
{
    let ghost m = matrix@;
    let mut out: Vec<GraphicItem> = Vec::new();
    proof {
        assert(out.deep_view() =~= Seq::<GraphicItemView>::empty());
    }
    let ghost mut dacc: Seq<Diagnostic> = Seq::empty();
    proof {
        assert(diags@ =~= old(diags)@ + dacc);
    }
    let mut rowidx: usize = 0;
    while rowidx < matrix.rows.len()
        invariant
            rowidx <= matrix.rows.len(),
            m == matrix@,
            crate::model::matrix_ok(m),
            style@.wf(),
            ties_rows(m, rowidx as int, style@) == Ok::<_, RenderError>((out.deep_view(), dacc)),
            diags@ == old(diags)@ + dacc,
        decreases matrix.rows.len() - rowidx,
    {
        proof {
            assert(m.rows[rowidx as int] == matrix@.rows[rowidx as int]);
        }
        let row = &matrix.rows[rowidx];
        let ghost ritems = m.rows[rowidx as int].items;
        let mut entries: Vec<TieFromEntry> = Vec::new();
        let mut racc: Vec<GraphicItem> = Vec::new();
        let ghost mut rdacc: Seq<Diagnostic> = Seq::empty();
        proof {
            assert(entries.deep_view() =~= Seq::<TieFromEntryView>::empty());
            assert(racc.deep_view() =~= Seq::<GraphicItemView>::empty());
        }
        let mut itemidx: usize = 0;
        while itemidx < row.items.len()
            invariant
                itemidx <= row.items.len(),
                m == matrix@,
                crate::model::matrix_ok(m),
                style@.wf(),
                rowidx < m.rows.len(),
                row == &matrix.rows[rowidx as int],
                ritems == m.rows[rowidx as int].items,
                ritems.len() == row.items.len(),
                scan_row(m.events, ritems, itemidx as int, style@) == Ok::<_, RenderError>((
                    entries.deep_view(),
                    racc.deep_view(),
                    rdacc,
                )),
                ties_rows(m, rowidx as int, style@) is Ok,
                forall|j: int| 0 <= j < entries.deep_view().len() ==> {
                    &&& (#[trigger] entries.deep_view()[j]).event < m.events.len()
                    &&& crate::geom::rect_ok(entries.deep_view()[j].rect)
                },
                diags@ == old(diags)@ + dacc + rdacc,
            decreases row.items.len() - itemidx,
        {
            proof {
                assert(ritems[itemidx as int] == row.items@[itemidx as int]);
            }
            let ghost st0 = (entries.deep_view(), racc.deep_view(), rdacc);
            match row.items[itemidx] {
                None => {
                    proof {
                        assert(scan_item(m.events, st0, ritems[itemidx as int], itemidx, style@)
                            == Ok::<_, RenderError>(st0));
                        assert(scan_row(m.events, ritems, itemidx as int + 1, style@)
                            == Ok::<_, RenderError>(st0));
                    }
                },
                Some(id) => {
                    proof {
                        assert(match m.rows[rowidx as int].items[itemidx as int] {
                            Some(x) => x < m.events.len(),
                            None => true,
                        });
                        assert(id < m.events.len());
                        assert(m.events[id as int] == matrix@.events[id as int]);
                        assert(crate::model::item_ok(m.events[id as int]));
                    }
                    let ev = &matrix.events[id];
                    let ghost evv = m.events[id as int];
                    let ghost e0 = entries.deep_view();
                    let ghost d0 = rdacc;
                    // phase one: register tie-from markers
                    let mut j: usize = 0;
                    while j < ev.nrects.len()
                        invariant
                            j <= ev.nrects.len(),
                            m == matrix@,
                            crate::model::matrix_ok(m),
                            style@.wf(),
                            id < m.events.len(),
                            ev == &matrix.events[id as int],
                            evv == m.events[id as int],
                            evv.nrects.len() == ev.nrects.len(),
                            crate::model::item_ok(evv),
                            (entries.deep_view(), rdacc) == phase_a(
                                e0,
                                d0,
                                evv.nrects,
                                j as int,
                                id,
                                itemidx,
                            ),
                            forall|q: int| 0 <= q < entries.deep_view().len() ==> {
                                &&& (#[trigger] entries.deep_view()[q]).event < m.events.len()
                                &&& crate::geom::rect_ok(entries.deep_view()[q].rect)
                            },
                            forall|q: int| 0 <= q < e0.len() ==> {
                                &&& (#[trigger] e0[q]).event < m.events.len()
                                &&& crate::geom::rect_ok(e0[q].rect)
                            },
                            diags@ == old(diags)@ + dacc + rdacc,
                        decreases ev.nrects.len() - j,
                    {
                        proof {
                            assert(evv.nrects[j as int] == ev.nrects@[j as int]@);
                            assert(crate::model::nrect_ext_ok(evv.nrects[j as int]));
                        }
                        let sh = &ev.nrects[j];
                        match sh.1 {
                            NRectType::TieFrom(nid, lvl, ttype, _dur, ndir, tdir, plc) => {
                                match ttype {
                                    TieFromType::Standard => {
                                        let entry = TieFromEntry {
                                            note_id: nid,
                                            level: lvl,
                                            rect: sh.0,
                                            note_direction: ndir,
                                            tie_direction: tdir,
                                            placement: plc,
                                            event: id,
                                        };
                                        crate::prim::push_item(&mut entries, entry);
                                    },
                                    TieFromType::LetRing => {
                                        diags.push(Diagnostic::TieLetRing(itemidx));
                                        proof {
                                            rdacc = rdacc.push(Diagnostic::TieLetRing(itemidx));
                                            assert(diags@ =~= old(diags)@ + dacc + rdacc);
                                        }
                                    },
                                    TieFromType::UnresolvedInChunk => {
                                        diags.push(Diagnostic::TieUnresolvedInChunk(itemidx));
                                        proof {
                                            rdacc = rdacc.push(
                                                Diagnostic::TieUnresolvedInChunk(itemidx),
                                            );
                                            assert(diags@ =~= old(diags)@ + dacc + rdacc);
                                        }
                                    },
                                }
                            },
                            _ => {},
                        }
                        j += 1;
                    }
                    let ghost a = phase_a(e0, d0, evv.nrects, evv.nrects.len() as int, id, itemidx);
                    proof {
                        assert((entries.deep_view(), rdacc) == a);
                    }
                    // phase two: resolve tie-to markers
                    let ghost acc0 = racc.deep_view();
                    let mut j: usize = 0;
                    while j < ev.nrects.len()
                        invariant
                            j <= ev.nrects.len(),
                            m == matrix@,
                            crate::model::matrix_ok(m),
                            style@.wf(),
                            id < m.events.len(),
                            ev == &matrix.events[id as int],
                            evv == m.events[id as int],
                            evv.nrects.len() == ev.nrects.len(),
                            crate::model::item_ok(evv),
                            entries.deep_view() == a.0,
                            rdacc == a.1,
                            phase_b(
                                m.events,
                                a.0,
                                acc0,
                                evv.nrects,
                                j as int,
                                evv.coord_x,
                                evv.coord_y,
                                style@,
                            ) == Ok::<_, RenderError>(racc.deep_view()),
                            rowidx < m.rows.len(),
                            itemidx < m.rows[rowidx as int].items.len(),
                            ties_rows(m, rowidx as int, style@) is Ok,
                            scan_row(m.events, m.rows[rowidx as int].items, itemidx as int, style@)
                                == Ok::<_, RenderError>(st0),
                            m.rows[rowidx as int].items[itemidx as int] == Some(id),
                            a == phase_a(
                                st0.0,
                                st0.2,
                                evv.nrects,
                                evv.nrects.len() as int,
                                id,
                                itemidx,
                            ),
                            acc0 == st0.1,
                            forall|q: int| 0 <= q < entries.deep_view().len() ==> {
                                &&& (#[trigger] entries.deep_view()[q]).event < m.events.len()
                                &&& crate::geom::rect_ok(entries.deep_view()[q].rect)
                            },
                            diags@ == old(diags)@ + dacc + rdacc,
                        decreases ev.nrects.len() - j,
                    {
                        proof {
                            assert(evv.nrects[j as int] == ev.nrects@[j as int]@);
                            assert(crate::model::nrect_ext_ok(evv.nrects[j as int]));
                        }
                        let sh = &ev.nrects[j];
                        match sh.1 {
                            NRectType::TieTo(ttype) => match ttype {
                                TieToType::ResolveTieFrom(fid, flevel) => {
                                    match resolve_one_exec(
                                        matrix,
                                        &entries,
                                        fid,
                                        flevel,
                                        ev.coord_x,
                                        ev.coord_y,
                                        sh.0,
                                        style,
                                    ) {
                                        Ok(item) => {
                                            crate::prim::push_item(&mut racc, item);
                                            proof {
                                                assert(phase_b(
                                                    m.events,
                                                    a.0,
                                                    acc0,
                                                    evv.nrects,
                                                    j as int + 1,
                                                    evv.coord_x,
                                                    evv.coord_y,
                                                    style@,
                                                ) == Ok::<_, RenderError>(racc.deep_view()));
                                            }
                                        },
                                        Err(e) => {
                                            proof {
                                                assert(phase_b(
                                                    m.events,
                                                    a.0,
                                                    acc0,
                                                    evv.nrects,
                                                    j as int + 1,
                                                    evv.coord_x,
                                                    evv.coord_y,
                                                    style@,
                                                ) == Err::<Seq<GraphicItemView>, RenderError>(e));
                                                lemma_tie_error_propagates(
                                                    m,
                                                    style@,
                                                    rowidx as int,
                                                    itemidx,
                                                    id,
                                                    st0,
                                                    j as int + 1,
                                                    e,
                                                );
                                            }
                                            return Err(e);
                                        },
                                    }
                                },
                                TieToType::LetRing => {
                                    let e = RenderError::LetRingTieUnsupported;
                                    proof {
                                        lemma_tie_error_propagates(
                                            m,
                                            style@,
                                            rowidx as int,
                                            itemidx,
                                            id,
                                            st0,
                                            j as int + 1,
                                            e,
                                        );
                                    }
                                    return Err(e);
                                },
                            },
                            _ => {},
                        }
                        j += 1;
                    }
                    proof {
                        assert(scan_item(m.events, st0, ritems[itemidx as int], itemidx, style@)
                            == Ok::<_, RenderError>((
                            entries.deep_view(),
                            racc.deep_view(),
                            rdacc,
                        )));
                    }
                },
            }
            itemidx += 1;
        }
        crate::prim::append_items(&mut out, racc);
        proof {
            dacc = dacc + rdacc;
            assert(diags@ =~= old(diags)@ + dacc);
            assert(ties_rows(m, rowidx as int + 1, style@) == Ok::<_, RenderError>((
                out.deep_view(),
                dacc,
            )));
        }
        rowidx += 1;
    }
    Ok(out)
}

} // verus!
