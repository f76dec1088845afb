use crate::fonts::Resources;
use crate::geom::{div_trunc, div_trunc_i64, COORD_LIMIT};
use crate::model::{
    matrix_ok, Diagnostic, PartTemplate, RenderError, RItemBeam, RMatrix, RMatrixView,
};
use crate::prim::{
    append_items, is_subsequence, one_item, push_item, Color, Fill, GraphicItem,
    GraphicItemView, PathCacheInfo, PathSegment, PathSegmentView, Stroke, StrokeView,
};
use crate::style::{Style, StyleView};
use vstd::prelude::*;

verus! {

/// The five staff lines of one music row, at half-`SPACE` multiples
/// `-2` to `2` around the row's center line.
pub open spec fn staff_lines_view(y: int, width: int, s: StyleView) -> Seq<GraphicItemView> {
    Seq::new(
        5,
        |i: int|
            GraphicItemView::Line(
                0,
                y + (i - 2) * s.space(),
                width,
                y + (i - 2) * s.space(),
                StrokeView::Strokestyle(s.notelines_width, Color::Black),
            ),
    )
}

/// The staff lines of the first `r` rows: five per music row, none for
/// other row kinds, and none at all without a part template.
pub open spec fn notelines_view(m: RMatrixView, r: int, s: StyleView) -> Seq<GraphicItemView>
    decreases r,
{
    if r <= 0 {
        Seq::empty()
    } else {
        let prev = notelines_view(m, r - 1, s);
        match m.bartemplate {
            Some(t) => if t[r - 1] == PartTemplate::Music {
                prev + staff_lines_view(m.rows[r - 1].y, m.width, s)
            } else {
                prev
            },
            None => prev,
        }
    }
}

/// Five orange staff lines at the origin, a development aid.
pub fn five_lines(w: i64, style: &Style) -> (r: Vec<GraphicItem>)
    requires
        style@.wf(),
        -COORD_LIMIT <= w <= COORD_LIMIT,
    ensures
        r.deep_view() == Seq::new(
            5,
            |i: int|
                GraphicItemView::Line(
                    0,
                    (i - 2) * style@.space(),
                    w as int,
                    (i - 2) * style@.space(),
                    StrokeView::Strokestyle(style@.notelines_width, Color::Orange),
                ),
        ),
{
    let ghost all = Seq::new(
        5,
        |i: int|
            GraphicItemView::Line(
                0,
                (i - 2) * style@.space(),
                w as int,
                (i - 2) * style@.space(),
                StrokeView::Strokestyle(style@.notelines_width, Color::Orange),
            ),
    );
    let space: i64 = 20 * style.space_step;
    let mut items: Vec<GraphicItem> = Vec::new();
    proof {
        assert(items.deep_view() =~= Seq::<GraphicItemView>::empty());
    }
    let mut i: i64 = 0;
    while i < 5
        invariant
            0 <= i <= 5,
            space == style@.space(),
            0 <= space <= 20000,
            -COORD_LIMIT <= w <= COORD_LIMIT,
            style@.wf(),
            all == Seq::new(
                5,
                |k: int|
                    GraphicItemView::Line(
                        0,
                        (k - 2) * style@.space(),
                        w as int,
                        (k - 2) * style@.space(),
                        StrokeView::Strokestyle(style@.notelines_width, Color::Orange),
                    ),
            ),
            items.deep_view() =~= all.take(i as int),
        decreases 5 - i,
    {
        proof {
            assert(-40000 <= (i - 2) * space <= 60000) by (nonlinear_arith)
                requires
                    0 <= i <= 4,
                    0 <= space <= 20000,
            ;
        }
        let y: i64 = (i - 2) * space;
        push_item(
            &mut items,
            GraphicItem::Line(0, y, w, y, Stroke::Strokestyle(style.notelines_width, Color::Orange)),
        );
        proof {
            assert(all[i as int] == GraphicItemView::Line(
                0,
                (i - 2) * style@.space(),
                w as int,
                (i - 2) * style@.space(),
                StrokeView::Strokestyle(style@.notelines_width, Color::Orange),
            ));
            assert(items.deep_view() =~= all.take(i as int + 1));
        }
        i += 1;
    }
    proof {
        assert(all.take(5) =~= all);
    }
    items
}

/// The five black staff lines of one music row.
fn staff_lines_exec(y: i64, width: i64, style: &Style) -> (r: Vec<GraphicItem>)
    requires
        style@.wf(),
        -COORD_LIMIT <= y <= COORD_LIMIT,
        -COORD_LIMIT <= width <= COORD_LIMIT,
    ensures
        r.deep_view() == staff_lines_view(y as int, width as int, style@),
{
    let ghost all = staff_lines_view(y as int, width as int, style@);
    let space: i64 = 20 * style.space_step;
    let mut items: Vec<GraphicItem> = Vec::new();
    proof {
        assert(items.deep_view() =~= Seq::<GraphicItemView>::empty());
    }
    let mut i: i64 = 0;
    while i < 5
        invariant
            0 <= i <= 5,
            space == style@.space(),
            0 <= space <= 20000,
            -COORD_LIMIT <= y <= COORD_LIMIT,
            -COORD_LIMIT <= width <= COORD_LIMIT,
            style@.wf(),
            all == staff_lines_view(y as int, width as int, style@),
            items.deep_view() =~= all.take(i as int),
        decreases 5 - i,
    {
        proof {
            assert(-40000 <= (i - 2) * space <= 60000) by (nonlinear_arith)
                requires
                    0 <= i <= 4,
                    0 <= space <= 20000,
            ;
        }
        let ly: i64 = y + (i - 2) * space;
        push_item(
            &mut items,
            GraphicItem::Line(
                0,
                ly,
                width,
                ly,
                Stroke::Strokestyle(style.notelines_width, Color::Black),
            ),
        );
        proof {
            assert(all[i as int] == GraphicItemView::Line(
                0,
                y + (i - 2) * style@.space(),
                width as int,
                y + (i - 2) * style@.space(),
                StrokeView::Strokestyle(style@.notelines_width, Color::Black),
            ));
            assert(items.deep_view() =~= all.take(i as int + 1));
        }
        i += 1;
    }
    proof {
        assert(all.take(5) =~= all);
    }
    items
}

/// Draws the staff lines of every music row.
pub fn output_notelines(matrix: &RMatrix, style: &Style) -> (r: Vec<GraphicItem>)
    requires
        matrix_ok(matrix@),
        style@.wf(),
    ensures
        r.deep_view() == notelines_view(matrix@, matrix@.rows.len() as int, style@),
{
    let ghost m = matrix@;
    let mut items: Vec<GraphicItem> = Vec::new();
    proof {
        assert(items.deep_view() =~= Seq::<GraphicItemView>::empty());
    }
    match &matrix.bartemplate {
        Some(bartemplate) => {
            let mut rowidx: usize = 0;
            while rowidx < matrix.rows.len()
                invariant
                    rowidx <= matrix.rows.len(),
                    m == matrix@,
                    matrix_ok(m),
                    style@.wf(),
                    matrix.bartemplate is Some,
                    m.bartemplate is Some,
                    items.deep_view() == notelines_view(m, rowidx as int, style@),
                decreases matrix.rows.len() - rowidx,
            {
                let bt = match &matrix.bartemplate {
                    Some(b) => b,
                    None => {
                        proof {
                            assert(false);
                        }
                        return items;
                    },
                };
                proof {
                    assert(m.bartemplate.unwrap()[rowidx as int] == bt@[rowidx as int]);
                    assert(m.rows[rowidx as int] == matrix@.rows[rowidx as int]);
                }
                if matches!(bt[rowidx], PartTemplate::Music) {
                    let row = &matrix.rows[rowidx];
                    let lines = staff_lines_exec(row.y, matrix.width, style);
                    append_items(&mut items, lines);
                }
                rowidx += 1;
            }
            items
        },
        None => {
            proof {
                let r = m.rows.len() as int;
                lemma_notelines_none(m, r, style@);
            }
            items
        },
    }
}

/// Without a part template no staff lines are drawn.
proof fn lemma_notelines_none(m: RMatrixView, r: int, s: StyleView)
    requires
        m.bartemplate is None,
        r >= 0,
    ensures
        notelines_view(m, r, s) == Seq::<GraphicItemView>::empty(),
    decreases r,
{
    if r > 0 {
        lemma_notelines_none(m, r - 1, s);
    }
}

/// The y positions of the first and last music rows among the first `r`
/// rows, as the brace scan collects them: the first music row fills the
/// first slot, every later one the second.
pub open spec fn brace_span(m: RMatrixView, r: int) -> (Option<int>, Option<int>)
    decreases r,
{
    if r <= 0 {
        (None, None)
    } else {
        let prev = brace_span(m, r - 1);
        match m.bartemplate {
            Some(t) => if t[r - 1] == PartTemplate::Music {
                if prev.0 is None {
                    (Some(m.rows[r - 1].y), prev.1)
                } else {
                    (prev.0, Some(m.rows[r - 1].y))
                }
            } else {
                prev
            },
            None => prev,
        }
    }
}

/// The system brace spanning the first to last music row: its stem line,
/// its body, and its two pointed tips; nothing with fewer than two music
/// rows.
pub open spec fn ackolades_view(m: RMatrixView, s: StyleView) -> Seq<GraphicItemView> {
    let span = brace_span(m, m.rows.len() as int);
    match (span.0, span.1) {
        (Some(fy), Some(ly)) => {
            let y1 = fy - 2 * s.space();
            let y2 = ly + 2 * s.space();
            let y1b = y1 - 5;
            let y2b = y2 + 5;
            seq![
                GraphicItemView::Line(
                    0,
                    y1,
                    0,
                    y2,
                    StrokeView::Strokestyle(s.notelines_width, Color::Black),
                ),
                GraphicItemView::Rect(
                    -s.space(),
                    y1b,
                    div_trunc(s.space(), 2),
                    y2b - y1b,
                    StrokeView::NoStroke,
                    Fill::Fillstyle(Color::Black),
                ),
                crate::resolve::path_item(
                    seq![
                        PathSegmentView::M(-s.space(), y1b),
                        PathSegmentView::L(0, y1b - 10),
                        PathSegmentView::L(0, y1b - 8),
                        PathSegmentView::L(-s.half_space(), y1b),
                    ],
                ),
                crate::resolve::path_item(
                    seq![
                        PathSegmentView::M(-s.space(), y2b),
                        PathSegmentView::L(0, y2b + 10),
                        PathSegmentView::L(0, y2b + 8),
                        PathSegmentView::L(-s.half_space(), y2b),
                    ],
                ),
            ]
        },
        _ => Seq::empty(),
    }
}

/// Draws the system brace over the music rows, where at least two exist.
pub fn output_ackolades(matrix: &RMatrix, style: &Style) -> (r: Vec<GraphicItem>)
    requires
        matrix_ok(matrix@),
        style@.wf(),
    ensures
        r.deep_view() == ackolades_view(matrix@, style@),
{
    let ghost m = matrix@;
    let mut first_y: Option<i64> = None;
    let mut last_y: Option<i64> = None;
    match &matrix.bartemplate {
        Some(bartemplate) => {
            let mut rowidx: usize = 0;
            while rowidx < matrix.rows.len()
                invariant
                    rowidx <= matrix.rows.len(),
                    m == matrix@,
                    matrix_ok(m),
                    matrix.bartemplate is Some,
                    m.bartemplate is Some,
                    brace_span(m, rowidx as int) == (
                        match first_y {
                            Some(v) => Some(v as int),
                            None => None::<int>,
                        },
                        match last_y {
                            Some(v) => Some(v as int),
                            None => None::<int>,
                        },
                    ),
                    match first_y {
                        Some(v) => -COORD_LIMIT <= v <= COORD_LIMIT,
                        None => true,
                    },
                    match last_y {
                        Some(v) => -COORD_LIMIT <= v <= COORD_LIMIT,
                        None => true,
                    },
                decreases matrix.rows.len() - rowidx,
            {
                let bt = match &matrix.bartemplate {
                    Some(b) => b,
                    None => {
                        proof {
                            assert(false);
                        }
                        return Vec::new();
                    },
                };
                proof {
                    assert(m.bartemplate.unwrap()[rowidx as int] == bt@[rowidx as int]);
                    assert(m.rows[rowidx as int] == matrix@.rows[rowidx as int]);
                }
                if matches!(bt[rowidx], PartTemplate::Music) {
                    if first_y.is_none() {
                        first_y = Some(matrix.rows[rowidx].y);
                    } else {
                        last_y = Some(matrix.rows[rowidx].y);
                    }
                }
                rowidx += 1;
            }
        },
        None => {
            proof {
                lemma_brace_span_none(m, m.rows.len() as int);
            }
        },
    }
    match (first_y, last_y) {
        (Some(fy), Some(ly)) => {
            let space: i64 = 20 * style.space_step;
            let y1 = fy - 2 * space;
            let y2 = ly + 2 * space;
            let y1b = y1 - 5;
            let y2b = y2 + 5;
            let half_body = div_trunc_i64(space, 2);
            let mut items: Vec<GraphicItem> = Vec::new();
            proof {
                assert(items.deep_view() =~= Seq::<GraphicItemView>::empty());
            }
            push_item(
                &mut items,
                GraphicItem::Line(
                    0,
                    y1,
                    0,
                    y2,
                    Stroke::Strokestyle(style.notelines_width, Color::Black),
                ),
            );
            push_item(
                &mut items,
                GraphicItem::Rect(
                    -space,
                    y1b,
                    half_body,
                    y2b - y1b,
                    Stroke::NoStroke,
                    Fill::Fillstyle(Color::Black),
                ),
            );
            let mut tip1: Vec<PathSegment> = Vec::new();
            proof {
                assert(tip1.deep_view() =~= Seq::<PathSegmentView>::empty());
            }
            push_item(&mut tip1, PathSegment::M(-space, y1b));
            push_item(&mut tip1, PathSegment::L(0, y1b - 10));
            push_item(&mut tip1, PathSegment::L(0, y1b - 8));
            push_item(&mut tip1, PathSegment::L(-(10 * style.space_step), y1b));
            proof {
                assert(tip1.deep_view() =~= seq![
                    PathSegmentView::M(-style@.space(), y1b as int),
                    PathSegmentView::L(0, y1b - 10),
                    PathSegmentView::L(0, y1b - 8),
                    PathSegmentView::L(-style@.half_space(), y1b as int),
                ]);
            }
            push_item(
                &mut items,
                GraphicItem::Path(
                    tip1,
                    Stroke::NoStroke,
                    Fill::Fillstyle(Color::Black),
                    PathCacheInfo::NoCache,
                ),
            );
            let mut tip2: Vec<PathSegment> = Vec::new();
            proof {
                assert(tip2.deep_view() =~= Seq::<PathSegmentView>::empty());
            }
            push_item(&mut tip2, PathSegment::M(-space, y2b));
            push_item(&mut tip2, PathSegment::L(0, y2b + 10));
            push_item(&mut tip2, PathSegment::L(0, y2b + 8));
            push_item(&mut tip2, PathSegment::L(-(10 * style.space_step), y2b));
            proof {
                assert(tip2.deep_view() =~= seq![
                    PathSegmentView::M(-style@.space(), y2b as int),
                    PathSegmentView::L(0, y2b + 10),
                    PathSegmentView::L(0, y2b + 8),
                    PathSegmentView::L(-style@.half_space(), y2b as int),
                ]);
            }
            push_item(
                &mut items,
                GraphicItem::Path(
                    tip2,
                    Stroke::NoStroke,
                    Fill::Fillstyle(Color::Black),
                    PathCacheInfo::NoCache,
                ),
            );
            proof {
                let av = ackolades_view(m, style@);
                assert(av.len() == 4);
                assert(items.deep_view().len() == 4);
                assert(items.deep_view()[0] == av[0]);
                assert(items.deep_view()[1] == av[1]);
                assert(items.deep_view()[2] == av[2]);
                assert(items.deep_view()[3] == av[3]);
                assert(items.deep_view() =~~= ackolades_view(m, style@));
            }
            items
        },
        _ => {
            let items: Vec<GraphicItem> = Vec::new();
            proof {
                assert(items.deep_view() =~= ackolades_view(m, style@));
            }
            items
        },
    }
}

/// Without a part template no music rows are found.
proof fn lemma_brace_span_none(m: RMatrixView, r: int)
    requires
        m.bartemplate is None,
        r >= 0,
    ensures
        brace_span(m, r) == (None::<int>, None::<int>),
    decreases r,
{
    if r > 0 {
        lemma_brace_span_none(m, r - 1);
    }
}

/// The row-level decoration shapes of the first `r` rows, each resolved
/// at the row's origin.
pub open spec fn row_nrects_rows(
    m: RMatrixView,
    r: int,
    s: StyleView,
    res: crate::fonts::ResourcesView,
    dev: bool,
) -> Seq<GraphicItemView>
    decreases r,
{
    if r <= 0 {
        Seq::empty()
    } else {
        row_nrects_rows(m, r - 1, s, res, dev) + row_shapes(
            m.rows[r - 1].nrects,
            m.rows[r - 1].nrects.len() as int,
            m.rows[r - 1].y,
            s,
            res,
            dev,
        )
    }
}

/// The first `k` decoration shapes of one row, resolved in order.
pub open spec fn row_shapes(
    shapes: Seq<crate::model::NRectExtView>,
    k: int,
    y: int,
    s: StyleView,
    res: crate::fonts::ResourcesView,
    dev: bool,
) -> Seq<GraphicItemView>
    decreases k,
{
    if k <= 0 {
        Seq::empty()
    } else {
        row_shapes(shapes, k - 1, y, s, res, dev) + crate::resolve::resolve_view(
            shapes[k - 1],
            0,
            y,
            s,
            res,
            dev,
        )
    }
}

/// Draws every row's decoration shapes.
pub fn output_row_nrects(
    matrix: &RMatrix,
    style: &Style,
    res: &Resources,
    draw_dev_frames: bool,
) -> (r: Vec<GraphicItem>)
    requires
        matrix_ok(matrix@),
        style@.wf(),
        res@.wf(),
    ensures
        r.deep_view() == row_nrects_rows(
            matrix@,
            matrix@.rows.len() as int,
            style@,
            res@,
            draw_dev_frames,
        ),
{
    let ghost m = matrix@;
    let mut items: Vec<GraphicItem> = Vec::new();
    proof {
        assert(items.deep_view() =~= Seq::<GraphicItemView>::empty());
    }
    let mut rowidx: usize = 0;
    while rowidx < matrix.rows.len()
        invariant
            rowidx <= matrix.rows.len(),
            m == matrix@,
            matrix_ok(m),
            style@.wf(),
            res@.wf(),
            items.deep_view() == row_nrects_rows(m, rowidx as int, style@, res@, draw_dev_frames),
        decreases matrix.rows.len() - rowidx,
    {
        proof {
            assert(m.rows[rowidx as int] == matrix@.rows[rowidx as int]);
        }
        let row = &matrix.rows[rowidx];
        let ghost rn = m.rows[rowidx as int].nrects;
        let ghost ry = m.rows[rowidx as int].y;
        let mut j: usize = 0;
        while j < row.nrects.len()
            invariant
                j <= row.nrects.len(),
                m == matrix@,
                matrix_ok(m),
                style@.wf(),
                res@.wf(),
                rowidx < m.rows.len(),
                row == &matrix.rows[rowidx as int],
                rn == m.rows[rowidx as int].nrects,
                ry == m.rows[rowidx as int].y,
                rn.len() == row.nrects.len(),
                -COORD_LIMIT <= row.y <= COORD_LIMIT,
                row.y as int == ry,
                items.deep_view() == row_nrects_rows(
                    m,
                    rowidx as int,
                    style@,
                    res@,
                    draw_dev_frames,
                ) + row_shapes(rn, j as int, ry, style@, res@, draw_dev_frames),
            decreases row.nrects.len() - j,
        {
            proof {
                assert(rn[j as int] == row.nrects@[j as int]@);
                assert(crate::model::nrect_ext_ok(rn[j as int]));
            }
            let shapes = crate::resolve::nrectext2graphic(
                &row.nrects[j],
                0,
                row.y,
                style,
                res,
                draw_dev_frames,
            );
            append_items(&mut items, shapes);
            j += 1;
        }
        rowidx += 1;
    }
    items
}

/// The primitives of one event's shapes, first `j` of them: for a
/// non-sounding column, or with the diagnostic flag on, each shape also
/// gets a frame rectangle ahead of it, orange for non-sounding columns
/// and red otherwise.
pub open spec fn event_shapes(
    nrects: Seq<crate::model::NRectExtView>,
    j: int,
    cx: int,
    cy: int,
    zero_duration: bool,
    s: StyleView,
    res: crate::fonts::ResourcesView,
    dev: bool,
) -> Seq<GraphicItemView>
    decreases j,
{
    if j <= 0 {
        Seq::empty()
    } else {
        let prev = event_shapes(nrects, j - 1, cx, cy, zero_duration, s, res, dev);
        let frame_color = if zero_duration {
            crate::model::NColor::Orange
        } else {
            crate::model::NColor::Red
        };
        let frames: Seq<GraphicItemView> = if zero_duration || dev {
            crate::resolve::resolve_view(
                crate::model::NRectExtView {
                    rect: nrects[j - 1].rect,
                    kind: crate::model::NRectType::Dev(false, frame_color),
                },
                cx,
                cy,
                s,
                res,
                dev,
            )
        } else {
            Seq::empty()
        };
        prev + frames + crate::resolve::resolve_view(nrects[j - 1], cx, cy, s, res, dev)
    }
}

/// The placeholder shape of an empty slot.
pub open spec fn empty_slot_view(
    x: int,
    y: int,
    s: StyleView,
    res: crate::fonts::ResourcesView,
    dev: bool,
) -> Seq<GraphicItemView> {
    crate::resolve::resolve_view(
        crate::model::NRectExtView {
            rect: crate::geom::NRectView { x: 0, y: 0, w: 10, h: 10 },
            kind: crate::model::NRectType::Dev(true, crate::model::NColor::Gray),
        },
        x,
        y,
        s,
        res,
        dev,
    )
}

/// The first `k` slots of one column: an event draws its shapes at its
/// anchor (a missing anchor aborts the render), an empty slot draws a
/// diagnostic placeholder at the column and row origin.
pub open spec fn main_col_slots(
    m: RMatrixView,
    c: int,
    k: int,
    s: StyleView,
    res: crate::fonts::ResourcesView,
    dev: bool,
) -> Result<Seq<GraphicItemView>, RenderError>
    decreases k,
{
    if k <= 0 {
        Ok(Seq::empty())
    } else {
        match main_col_slots(m, c, k - 1, s, res, dev) {
            Err(e) => Err(e),
            Ok(prev) => match m.cols[c].items[k - 1] {
                Some(id) => {
                    let ev = m.events[id as int];
                    match (ev.coord_x, ev.coord_y) {
                        (Some(cx), Some(cy)) => Ok(
                            prev + event_shapes(
                                ev.nrects,
                                ev.nrects.len() as int,
                                cx,
                                cy,
                                m.cols[c].duration == 0,
                                s,
                                res,
                                dev,
                            ),
                        ),
                        _ => Err(RenderError::MissingCoordinate),
                    }
                },
                None => Ok(
                    prev + empty_slot_view(m.cols[c].x, m.rows[k - 1].y, s, res, dev),
                ),
            },
        }
    }
}

/// The per-event shapes of the first `c` columns, in column-then-row
/// traversal order.
pub open spec fn main_elements_view(
    m: RMatrixView,
    c: int,
    s: StyleView,
    res: crate::fonts::ResourcesView,
    dev: bool,
) -> Result<Seq<GraphicItemView>, RenderError>
    decreases c,
{
    if c <= 0 {
        Ok(Seq::empty())
    } else {
        match main_elements_view(m, c - 1, s, res, dev) {
            Err(e) => Err(e),
            Ok(prev) => match main_col_slots(m, c - 1, m.cols[c - 1].items.len() as int, s, res, dev) {
                Err(e) => Err(e),
                Ok(col) => Ok(prev + col),
            },
        }
    }
}

/// A failed slot keeps the column failed.
proof fn lemma_main_col_persists(
    m: RMatrixView,
    c: int,
    k1: int,
    k2: int,
    s: StyleView,
    res: crate::fonts::ResourcesView,
    dev: bool,
)
    requires
        0 <= k1 <= k2,
        main_col_slots(m, c, k1, s, res, dev) is Err,
    ensures
        main_col_slots(m, c, k2, s, res, dev) == main_col_slots(m, c, k1, s, res, dev),
    decreases k2 - k1,
{
    if k2 > k1 {
        lemma_main_col_persists(m, c, k1, k2 - 1, s, res, dev);
    }
}

/// A failed column keeps the traversal failed.
proof fn lemma_main_elements_persists(
    m: RMatrixView,
    c1: int,
    c2: int,
    s: StyleView,
    res: crate::fonts::ResourcesView,
    dev: bool,
)
    requires
        0 <= c1 <= c2,
        main_elements_view(m, c1, s, res, dev) is Err,
    ensures
        main_elements_view(m, c2, s, res, dev) == main_elements_view(m, c1, s, res, dev),
    decreases c2 - c1,
{
    if c2 > c1 {
        lemma_main_elements_persists(m, c1, c2 - 1, s, res, dev);
    }
}

/// Draws every event's shapes in column-then-row order, with diagnostic
/// frames for non-sounding columns and, when the flag is set, for every
/// shape; empty slots get a placeholder.  A referenced event without
/// coordinates aborts the render.
#[verifier::rlimit(100)]
#[verifier::spinoff_prover]
pub fn output_main_elements(
    matrix: &RMatrix,
    style: &Style,
    res: &Resources,
    draw_dev_frames: bool,
) -> (r: Result<Vec<GraphicItem>, RenderError>)
    requires
        matrix_ok(matrix@),
        style@.wf(),
        res@.wf(),
    ensures
        ({
            let spec = main_elements_view(
                matrix@,
                matrix@.cols.len() as int,
                style@,
                res@,
                draw_dev_frames,
            );
            match r {
                Ok(v) => spec == Ok::<_, RenderError>(v.deep_view()),
                Err(e) => spec == Err::<Seq<GraphicItemView>, _>(e),
            }
        }),
{
    let ghost m = matrix@;
    let mut items: Vec<GraphicItem> = Vec::new();
    proof {
        assert(items.deep_view() =~= Seq::<GraphicItemView>::empty());
    }
    let mut colidx: usize = 0;
    while colidx < matrix.cols.len()
        invariant
            colidx <= matrix.cols.len(),
            m == matrix@,
            matrix_ok(m),
            style@.wf(),
            res@.wf(),
            main_elements_view(m, colidx as int, style@, res@, draw_dev_frames)
                == Ok::<_, RenderError>(items.deep_view()),
        decreases matrix.cols.len() - colidx,
    {
        proof {
            assert(m.cols[colidx as int] == matrix@.cols[colidx as int]);
        }
        let col = &matrix.cols[colidx];
        let zero_duration = col.duration == 0;
        let ghost citems = m.cols[colidx as int].items;
        let ghost colstart = items.deep_view();
        proof {
            assert(items.deep_view().skip(colstart.len() as int)
                =~= Seq::<GraphicItemView>::empty());
            assert(items.deep_view().take(colstart.len() as int) =~= colstart);
        }
        let mut rowidx: usize = 0;
        while rowidx < col.items.len()
            invariant
                rowidx <= col.items.len(),
                m == matrix@,
                matrix_ok(m),
                style@.wf(),
                res@.wf(),
                colidx < m.cols.len(),
                col == &matrix.cols[colidx as int],
                citems == m.cols[colidx as int].items,
                citems.len() == col.items.len(),
                citems.len() == m.rows.len(),
                zero_duration == (m.cols[colidx as int].duration == 0),
                -COORD_LIMIT <= col.x <= COORD_LIMIT,
                col.x as int == m.cols[colidx as int].x,
                main_elements_view(m, colidx as int, style@, res@, draw_dev_frames)
                    == Ok::<_, RenderError>(colstart),
                main_col_slots(m, colidx as int, rowidx as int, style@, res@, draw_dev_frames)
                    == Ok::<_, RenderError>(items.deep_view().skip(colstart.len() as int)),
                items.deep_view().take(colstart.len() as int) == colstart,
                items.deep_view().len() >= colstart.len(),
            decreases col.items.len() - rowidx,
        {
            proof {
                assert(citems[rowidx as int] == col.items@[rowidx as int]);
            }
            let ghost sofar = items.deep_view().skip(colstart.len() as int);
            match col.items[rowidx] {
                Some(id) => {
                    proof {
                        assert(match m.cols[colidx as int].items[rowidx as int] {
                            Some(x) => x < m.events.len(),
                            None => true,
                        });
                        assert(id < m.events.len());
                        assert(crate::model::item_ok(m.events[id as int]));
                    }
                    let ev = &matrix.events[id];
                    let ghost evv = m.events[id as int];
                    match (ev.coord_x, ev.coord_y) {
                        (Some(cx), Some(cy)) => {
                            let ghost evstart = items.deep_view();
                            let mut j: usize = 0;
                            while j < ev.nrects.len()
                                invariant
                                    j <= ev.nrects.len(),
                                    m == matrix@,
                                    matrix_ok(m),
                                    style@.wf(),
                                    res@.wf(),
                                    colidx < m.cols.len(),
                                    id < m.events.len(),
                                    ev == &matrix.events[id as int],
                                    evv == m.events[id as int],
                                    evv.nrects.len() == ev.nrects.len(),
                                    crate::model::item_ok(evv),
                                    evv.coord_x == Some(cx as int),
                                    evv.coord_y == Some(cy as int),
                                    -COORD_LIMIT <= cx <= COORD_LIMIT,
                                    -COORD_LIMIT <= cy <= COORD_LIMIT,
                                    zero_duration == (m.cols[colidx as int].duration == 0),
                                    items.deep_view() == evstart + event_shapes(
                                        evv.nrects,
                                        j as int,
                                        cx as int,
                                        cy as int,
                                        zero_duration,
                                        style@,
                                        res@,
                                        draw_dev_frames,
                                    ),
                                decreases ev.nrects.len() - j,
                            {
                                proof {
                                    assert(evv.nrects[j as int] == ev.nrects@[j as int]@);
                                    assert(crate::model::nrect_ext_ok(evv.nrects[j as int]));
                                }
                                let sh = &ev.nrects[j];
                                if zero_duration || draw_dev_frames {
                                    let frame_color = if zero_duration {
                                        crate::model::NColor::Orange
                                    } else {
                                        crate::model::NColor::Red
                                    };
                                    let frame = crate::model::NRectExt::new(
                                        sh.0,
                                        crate::model::NRectType::Dev(false, frame_color),
                                    );
                                    let fitems = crate::resolve::nrectext2graphic(
                                        &frame,
                                        cx,
                                        cy,
                                        style,
                                        res,
                                        draw_dev_frames,
                                    );
                                    append_items(&mut items, fitems);
                                }
                                let shapes = crate::resolve::nrectext2graphic(
                                    sh,
                                    cx,
                                    cy,
                                    style,
                                    res,
                                    draw_dev_frames,
                                );
                                append_items(&mut items, shapes);
                                j += 1;
                            }
                            proof {
                                assert(items.deep_view().skip(colstart.len() as int) =~= sofar
                                    + event_shapes(
                                    evv.nrects,
                                    evv.nrects.len() as int,
                                    cx as int,
                                    cy as int,
                                    zero_duration,
                                    style@,
                                    res@,
                                    draw_dev_frames,
                                ));
                                assert(items.deep_view().take(colstart.len() as int) =~= colstart);
                            }
                        },
                        _ => {
                            let e = RenderError::MissingCoordinate;
                            proof {
                                assert(main_col_slots(
                                    m,
                                    colidx as int,
                                    rowidx as int + 1,
                                    style@,
                                    res@,
                                    draw_dev_frames,
                                ) == Err::<Seq<GraphicItemView>, _>(e));
                                lemma_main_col_persists(
                                    m,
                                    colidx as int,
                                    rowidx as int + 1,
                                    citems.len() as int,
                                    style@,
                                    res@,
                                    draw_dev_frames,
                                );
                                assert(main_elements_view(
                                    m,
                                    colidx as int + 1,
                                    style@,
                                    res@,
                                    draw_dev_frames,
                                ) == Err::<Seq<GraphicItemView>, _>(e));
                                lemma_main_elements_persists(
                                    m,
                                    colidx as int + 1,
                                    m.cols.len() as int,
                                    style@,
                                    res@,
                                    draw_dev_frames,
                                );
                            }
                            return Err(e);
                        },
                    }
                },
                None => {
                    proof {
                        assert(-COORD_LIMIT <= m.rows[rowidx as int].y <= COORD_LIMIT);
                        assert(matrix.rows@[rowidx as int]@ == m.rows[rowidx as int]);
                    }
                    let y = matrix.rows[rowidx].y;
                    let placeholder = crate::model::NRectExt::new(
                        crate::geom::NRect(0, 0, 10, 10),
                        crate::model::NRectType::Dev(true, crate::model::NColor::Gray),
                    );
                    let pitems = crate::resolve::nrectext2graphic(
                        &placeholder,
                        col.x,
                        y,
                        style,
                        res,
                        draw_dev_frames,
                    );
                    append_items(&mut items, pitems);
                    proof {
                        assert(items.deep_view().skip(colstart.len() as int) =~= sofar
                            + empty_slot_view(
                            m.cols[colidx as int].x,
                            m.rows[rowidx as int].y,
                            style@,
                            res@,
                            draw_dev_frames,
                        ));
                        assert(items.deep_view().take(colstart.len() as int) =~= colstart);
                    }
                },
            }
            rowidx += 1;
        }
        proof {
            assert(items.deep_view() =~= colstart + items.deep_view().skip(
                colstart.len() as int,
            ));
        }
        colidx += 1;
    }
    Ok(items)
}

/// One voice's beam-group state machine at one event: the new
/// accumulator, the primitives this event adds, and the diagnostics it
/// notes.  A lone note draws its stem, `Start` resets the accumulator,
/// `Middle` appends, and `End` appends and flushes the whole group.
pub open spec fn voice_step(
    acc: Seq<(crate::model::RItemBeamDataView, crate::geom::NPointView)>,
    b: crate::model::RItemBeamView,
    p: crate::geom::NPointView,
    s: StyleView,
) -> (
    Seq<(crate::model::RItemBeamDataView, crate::geom::NPointView)>,
    Seq<GraphicItemView>,
    Seq<Diagnostic>,
) {
    match b {
        crate::model::RItemBeamView::NoBeam => (acc, Seq::empty(), Seq::empty()),
        crate::model::RItemBeamView::Single(d) => if crate::model::has_stem(d.duration) {
            (acc, crate::beams::single_view(d, p, s), Seq::empty())
        } else {
            (acc, Seq::empty(), Seq::empty())
        },
        crate::model::RItemBeamView::Start(d) => (seq![(d, p)], Seq::empty(), Seq::empty()),
        crate::model::RItemBeamView::Middle(d) => (acc.push((d, p)), Seq::empty(), Seq::empty()),
        crate::model::RItemBeamView::End(d) => {
            let group = acc.push((d, p));
            let r = crate::beams::do_beam_view(group, s);
            (group, r.0, r.1)
        },
    }
}

/// The two-voice beam state after the first `k` slots of a row; a
/// referenced event without coordinates aborts the render.
pub open spec fn beam_row(m: RMatrixView, rowidx: int, k: int, s: StyleView) -> Result<
    (
        Seq<(crate::model::RItemBeamDataView, crate::geom::NPointView)>,
        Seq<(crate::model::RItemBeamDataView, crate::geom::NPointView)>,
        Seq<GraphicItemView>,
        Seq<Diagnostic>,
    ),
    RenderError,
>
    decreases k,
{
    if k <= 0 {
        Ok((Seq::empty(), Seq::empty(), Seq::empty(), Seq::empty()))
    } else {
        match beam_row(m, rowidx, k - 1, s) {
            Err(e) => Err(e),
            Ok(st) => match m.rows[rowidx].items[k - 1] {
                None => Ok(st),
                Some(id) => {
                    let ev = m.events[id as int];
                    match (ev.coord_x, ev.coord_y) {
                        (Some(x), Some(y)) => {
                            let p = crate::geom::NPointView { x: x, y: y };
                            let s1 = voice_step(st.0, ev.note_beam, p, s);
                            let s2 = voice_step(st.1, ev.note2_beam, p, s);
                            Ok((s1.0, s2.0, st.2 + s1.1 + s2.1, st.3 + s1.2 + s2.2))
                        },
                        _ => Err(RenderError::MissingCoordinate),
                    }
                },
            },
        }
    }
}

/// The beam groups of the first `r` rows.
pub open spec fn beamgroups_view(m: RMatrixView, r: int, s: StyleView) -> Result<
    (Seq<GraphicItemView>, Seq<Diagnostic>),
    RenderError,
>
    decreases r,
{
    if r <= 0 {
        Ok((Seq::empty(), Seq::empty()))
    } else {
        match beamgroups_view(m, r - 1, s) {
            Err(e) => Err(e),
            Ok(st) => match beam_row(m, r - 1, m.rows[r - 1].items.len() as int, s) {
                Err(e) => Err(e),
                Ok(row_st) => Ok((st.0 + row_st.2, st.1 + row_st.3)),
            },
        }
    }
}

/// A failed slot keeps the row's beam scan failed.
proof fn lemma_beam_row_persists(m: RMatrixView, rowidx: int, k1: int, k2: int, s: StyleView)
    requires
        0 <= k1 <= k2,
        beam_row(m, rowidx, k1, s) is Err,
    ensures
        beam_row(m, rowidx, k2, s) == beam_row(m, rowidx, k1, s),
    decreases k2 - k1,
{
    if k2 > k1 {
        lemma_beam_row_persists(m, rowidx, k1, k2 - 1, s);
    }
}

/// A failed row keeps the beam pass failed.
proof fn lemma_beamgroups_persists(m: RMatrixView, r1: int, r2: int, s: StyleView)
    requires
        0 <= r1 <= r2,
        beamgroups_view(m, r1, s) is Err,
    ensures
        beamgroups_view(m, r2, s) == beamgroups_view(m, r1, s),
    decreases r2 - r1,
{
    if r2 > r1 {
        lemma_beamgroups_persists(m, r1, r2 - 1, s);
    }
}

/// Copies a duration list element by element.
fn copy_durations(src: &Vec<crate::model::Duration>) -> (r: Vec<crate::model::Duration>)
    ensures
        r@ == src@,
{
    let mut r: Vec<crate::model::Duration> = Vec::new();
    let mut i: usize = 0;
    while i < src.len()
        invariant
            i <= src.len(),
            r@ == src@.take(i as int),
        decreases src.len() - i,
    {
        r.push(src[i]);
        i += 1;
        proof {
            assert(r@ =~= src@.take(i as int));
        }
    }
    proof {
        assert(src@.take(src@.len() as int) =~= src@);
    }
    r
}

/// Copies one event's beam data.
fn clone_beam_data(d: &crate::model::RItemBeamData) -> (r: crate::model::RItemBeamData)
    ensures
        r@ == d@,
{
    crate::model::RItemBeamData {
        id: d.id,
        direction: d.direction,
        tip_level: d.tip_level,
        top_level: d.top_level,
        bottom_level: d.bottom_level,
        head_width: d.head_width,
        adjustment_x: d.adjustment_x,
        duration: d.duration,
        note_durations: match &d.note_durations {
            Some(v) => Some(copy_durations(v)),
            None => None,
        },
    }
}

/// Whether every accumulated group member is within bounds.
pub open spec fn beam_acc_ok(
    acc: Seq<(crate::model::RItemBeamDataView, crate::geom::NPointView)>,
) -> bool {
    forall|i: int| 0 <= i < acc.len() ==> {
        &&& crate::model::beam_data_ok((#[trigger] acc[i]).0)
        &&& crate::geom::point_ok(acc[i].1)
    }
}

/// Advances one voice's beam state machine by one event.
#[verifier::rlimit(100)]
#[verifier::spinoff_prover]
fn voice_exec(
    acc: &mut Vec<(crate::model::RItemBeamData, crate::geom::NPoint)>,
    out: &mut Vec<GraphicItem>,
    diags: &mut Vec<Diagnostic>,
    b: &RItemBeam,
    p: crate::geom::NPoint,
    style: &Style,
) -> (r: ())
    requires
        crate::model::beam_state_ok(b@),
        crate::geom::point_ok(p@),
        style@.wf(),
        beam_acc_ok(old(acc).deep_view()),
    ensures
        ({
            let st = voice_step(old(acc).deep_view(), b@, p@, style@);
            &&& final(acc).deep_view() == st.0
            &&& final(out).deep_view() == old(out).deep_view() + st.1
            &&& final(diags)@ == old(diags)@ + st.2
            &&& beam_acc_ok(final(acc).deep_view())
        }),
{
    proof {
        assert(out.deep_view() =~= out.deep_view() + Seq::<GraphicItemView>::empty());
        assert(diags@ =~= diags@ + Seq::<Diagnostic>::empty());
    }
    match b {
        RItemBeam::NoBeam => {},
        RItemBeam::Single(d) => {
            if crate::model::duration_has_stem(&d.duration) {
                let stems = crate::beams::do_single(d, p, style);
                append_items(out, stems);
            }
        },
        RItemBeam::Start(d) => {
            acc.clear();
            proof {
                assert(acc.deep_view() =~= Seq::<(
                    crate::model::RItemBeamDataView,
                    crate::geom::NPointView,
                )>::empty());
            }
            push_item(acc, (clone_beam_data(d), p));
        },
        RItemBeam::Middle(d) => {
            push_item(acc, (clone_beam_data(d), p));
        },
        RItemBeam::End(d) => {
            push_item(acc, (clone_beam_data(d), p));
            proof {
                assert(acc.deep_view().last().0.note_durations is Some);
            }
            let prims = crate::beams::do_beam(acc, style, diags);
            append_items(out, prims);
        },
    }
}

/// Scans every row's two beam-state sequences and draws stems, beams
/// and sub-beams group by group.  A referenced event without coordinates
/// aborts the render.
#[verifier::rlimit(100)]
#[verifier::spinoff_prover]
pub fn output_beamgroups(matrix: &RMatrix, style: &Style, diags: &mut Vec<Diagnostic>) -> (r:
    Result<Vec<GraphicItem>, RenderError>)
    requires
        matrix_ok(matrix@),
        style@.wf(),
    ensures
        ({
            let spec = beamgroups_view(matrix@, matrix@.rows.len() as int, style@);
            match r {
                Ok(v) => {
                    &&& spec is Ok
                    &&& v.deep_view() == spec.unwrap().0
                    &&& final(diags)@ == old(diags)@ + spec.unwrap().1
                },
                Err(e) => spec == Err::<(Seq<GraphicItemView>, Seq<Diagnostic>), RenderError>(e),
            }
        }),
{
    let ghost m = matrix@;
    let mut out: Vec<GraphicItem> = Vec::new();
    proof {
        assert(out.deep_view() =~= Seq::<GraphicItemView>::empty());
    }
    let ghost mut dacc: Seq<Diagnostic> = Seq::empty();
    proof {
        assert(diags@ =~= old(diags)@ + dacc);
    }
    let mut rowidx: usize = 0;
    while rowidx < matrix.rows.len()
        invariant
            rowidx <= matrix.rows.len(),
            m == matrix@,
            matrix_ok(m),
            style@.wf(),
            beamgroups_view(m, rowidx as int, style@) == Ok::<_, RenderError>((
                out.deep_view(),
                dacc,
            )),
            diags@ == old(diags)@ + dacc,
        decreases matrix.rows.len() - rowidx,
    {
        proof {
            assert(m.rows[rowidx as int] == matrix@.rows[rowidx as int]);
        }
        let row = &matrix.rows[rowidx];
        let ghost ritems = m.rows[rowidx as int].items;
        let mut acc1: Vec<(crate::model::RItemBeamData, crate::geom::NPoint)> = Vec::new();
        let mut acc2: Vec<(crate::model::RItemBeamData, crate::geom::NPoint)> = Vec::new();
        let mut rout: Vec<GraphicItem> = Vec::new();
        let ghost mut rdacc: Seq<Diagnostic> = Seq::empty();
        proof {
            assert(acc1.deep_view() =~= Seq::<(
                crate::model::RItemBeamDataView,
                crate::geom::NPointView,
            )>::empty());
            assert(acc2.deep_view() =~= Seq::<(
                crate::model::RItemBeamDataView,
                crate::geom::NPointView,
            )>::empty());
            assert(rout.deep_view() =~= Seq::<GraphicItemView>::empty());
        }
        let mut itemidx: usize = 0;
        while itemidx < row.items.len()
            invariant
                itemidx <= row.items.len(),
                m == matrix@,
                matrix_ok(m),
                style@.wf(),
                rowidx < m.rows.len(),
                row == &matrix.rows[rowidx as int],
                ritems == m.rows[rowidx as int].items,
                ritems.len() == row.items.len(),
                beamgroups_view(m, rowidx as int, style@) == Ok::<_, RenderError>((
                    out.deep_view(),
                    dacc,
                )),
                beam_row(m, rowidx as int, itemidx as int, style@) == Ok::<_, RenderError>((
                    acc1.deep_view(),
                    acc2.deep_view(),
                    rout.deep_view(),
                    rdacc,
                )),
                beam_acc_ok(acc1.deep_view()),
                beam_acc_ok(acc2.deep_view()),
                diags@ == old(diags)@ + dacc + rdacc,
            decreases row.items.len() - itemidx,
        {
            proof {
                assert(ritems[itemidx as int] == row.items@[itemidx as int]);
            }
            match row.items[itemidx] {
                None => {},
                Some(id) => {
                    proof {
                        assert(match m.rows[rowidx as int].items[itemidx as int] {
                            Some(x) => x < m.events.len(),
                            None => true,
                        });
                        assert(id < m.events.len());
                        assert(crate::model::item_ok(m.events[id as int]));
                    }
                    let ev = &matrix.events[id];
                    match (ev.coord_x, ev.coord_y) {
                        (Some(x), Some(y)) => {
                            let p = crate::geom::NPoint(x, y);
                            let ghost acc1_pre = acc1.deep_view();
                            let ghost acc2_pre = acc2.deep_view();
                            let ghost rout_pre = rout.deep_view();
                            let ghost rdacc_pre = rdacc;
                            let ghost s1 = voice_step(
                                acc1_pre,
                                m.events[id as int].note_beam,
                                p@,
                                style@,
                            );
                            let ghost s2 = voice_step(
                                acc2_pre,
                                m.events[id as int].note2_beam,
                                p@,
                                style@,
                            );
                            voice_exec(&mut acc1, &mut rout, diags, &ev.note_beam, p, style);
                            voice_exec(&mut acc2, &mut rout, diags, &ev.note2_beam, p, style);
                            proof {
                                rdacc = rdacc + s1.2 + s2.2;
                                assert(rout.deep_view() =~= rout_pre + s1.1 + s2.1);
                                assert(diags@ =~= old(diags)@ + dacc + rdacc);
                                assert(beam_row(m, rowidx as int, itemidx as int + 1, style@)
                                    == Ok::<_, RenderError>((
                                    acc1.deep_view(),
                                    acc2.deep_view(),
                                    rout.deep_view(),
                                    rdacc,
                                )));
                            }
                        },
                        _ => {
                            let e = RenderError::MissingCoordinate;
                            proof {
                                assert(beam_row(
                                    m,
                                    rowidx as int,
                                    itemidx as int + 1,
                                    style@,
                                ) is Err);
                                lemma_beam_row_persists(
                                    m,
                                    rowidx as int,
                                    itemidx as int + 1,
                                    ritems.len() as int,
                                    style@,
                                );
                                assert(beamgroups_view(m, rowidx as int + 1, style@)
                                    == Err::<(Seq<GraphicItemView>, Seq<Diagnostic>), _>(e));
                                lemma_beamgroups_persists(
                                    m,
                                    rowidx as int + 1,
                                    m.rows.len() as int,
                                    style@,
                                );
                            }
                            return Err(e);
                        },
                    }
                },
            }
            itemidx += 1;
        }
        append_items(&mut out, rout);
        proof {
            dacc = dacc + rdacc;
            assert(diags@ =~= old(diags)@ + dacc);
            assert(beamgroups_view(m, rowidx as int + 1, style@) == Ok::<_, RenderError>((
                out.deep_view(),
                dacc,
            )));
        }
        rowidx += 1;
    }
    Ok(out)
}

/// The primitives of one inter-event connector line: its course by
/// style, and for half- and whole-step styles a figure label at the
/// midpoint.
pub open spec fn connector_view(
    l0: i8,
    l1: i8,
    ltype: crate::model::HeadLineType,
    lx: int,
    ly: int,
    rx: int,
    ry: int,
    s: StyleView,
    res: crate::fonts::ResourcesView,
) -> Seq<GraphicItemView> {
    let x = lx + s.sp(36);
    let x2 = rx - s.sp(8);
    let y = ly + l0 * s.half_space() + 4;
    let y2 = ry + l1 * s.half_space() + 4;
    let xmid = x + div_trunc(x2 - x, 2);
    let ymid = y + div_trunc(y2 - y, 2);
    match ltype {
        crate::model::HeadLineType::Halfstep => seq![
            GraphicItemView::Path(
                seq![
                    PathSegmentView::M(x, y),
                    PathSegmentView::L(xmid, ymid + 15),
                    PathSegmentView::L(x2, y2),
                ],
                StrokeView::Strokestyle(5, Color::Tomato),
                Fill::NoFill,
                PathCacheInfo::NoCache,
            ),
            crate::resolve::path_item(
                crate::resolve::scaled_moved(
                    crate::fonts::font_path(res.labels.entries, '\u{bd}'),
                    s.halfstep_label_scale_milli,
                    s.halfstep_label_scale_milli,
                    xmid - 10,
                    ymid + 56,
                ),
            ),
        ],
        crate::model::HeadLineType::Wholestep => seq![
            GraphicItemView::Path(
                seq![PathSegmentView::M(x, y), PathSegmentView::L(x2, y2)],
                StrokeView::Strokestyle(5, Color::Dodgerblue),
                Fill::NoFill,
                PathCacheInfo::NoCache,
            ),
            crate::resolve::path_item(
                crate::resolve::scaled_moved(
                    crate::fonts::font_path(res.labels.entries, '1'),
                    s.wholestep_label_scale_milli,
                    s.wholestep_label_scale_milli,
                    xmid - 10,
                    ymid - 30,
                ),
            ),
        ],
        crate::model::HeadLineType::LineColor(c) => seq![
            GraphicItemView::Line(
                x,
                y,
                x2,
                y2,
                StrokeView::Strokestyle(5, crate::resolve::color_of(c)),
            ),
        ],
        crate::model::HeadLineType::Plain => seq![
            GraphicItemView::Line(x, y, x2, y2, StrokeView::Strokestyle(5, Color::Black)),
        ],
    }
}

/// The connectors named by the first `k` line specs of a right-hand
/// event.
pub open spec fn pair_lines(
    lines: Seq<(i8, i8, crate::model::HeadLineType)>,
    k: int,
    lx: int,
    ly: int,
    rx: int,
    ry: int,
    s: StyleView,
    res: crate::fonts::ResourcesView,
) -> Seq<GraphicItemView>
    decreases k,
{
    if k <= 0 {
        Seq::empty()
    } else {
        pair_lines(lines, k - 1, lx, ly, rx, ry, s, res) + connector_view(
            lines[k - 1].0,
            lines[k - 1].1,
            lines[k - 1].2,
            lx,
            ly,
            rx,
            ry,
            s,
            res,
        )
    }
}

/// The connectors of the first `k` adjacent slot pairs of a row: a pair
/// with an empty side draws nothing; a pair of events without
/// coordinates aborts the render.
pub open spec fn lines_row(
    m: RMatrixView,
    rowidx: int,
    k: int,
    s: StyleView,
    res: crate::fonts::ResourcesView,
) -> Result<Seq<GraphicItemView>, RenderError>
    decreases k,
{
    if k <= 0 {
        Ok(Seq::empty())
    } else {
        match lines_row(m, rowidx, k - 1, s, res) {
            Err(e) => Err(e),
            Ok(prev) => match (m.rows[rowidx].items[k - 1], m.rows[rowidx].items[k]) {
                (Some(lid), Some(rid)) => {
                    let lev = m.events[lid as int];
                    let rev = m.events[rid as int];
                    match (lev.coord_x, lev.coord_y, rev.coord_x, rev.coord_y) {
                        (Some(lx), Some(ly), Some(rx), Some(ry)) => Ok(
                            prev + pair_lines(
                                rev.lines,
                                rev.lines.len() as int,
                                lx,
                                ly,
                                rx,
                                ry,
                                s,
                                res,
                            ),
                        ),
                        _ => Err(RenderError::MissingCoordinate),
                    }
                },
                _ => Ok(prev),
            },
        }
    }
}

/// The connectors of the first `r` rows.
pub open spec fn lines_view(
    m: RMatrixView,
    r: int,
    s: StyleView,
    res: crate::fonts::ResourcesView,
) -> Result<Seq<GraphicItemView>, RenderError>
    decreases r,
{
    if r <= 0 {
        Ok(Seq::empty())
    } else {
        match lines_view(m, r - 1, s, res) {
            Err(e) => Err(e),
            Ok(prev) => {
                let n = m.rows[r - 1].items.len() as int;
                match lines_row(m, r - 1, if n <= 0 { 0 } else { n - 1 }, s, res) {
                    Err(e) => Err(e),
                    Ok(row) => Ok(prev + row),
                }
            },
        }
    }
}

/// A failed pair keeps the row's connector scan failed.
proof fn lemma_lines_row_persists(
    m: RMatrixView,
    rowidx: int,
    k1: int,
    k2: int,
    s: StyleView,
    res: crate::fonts::ResourcesView,
)
    requires
        0 <= k1 <= k2,
        lines_row(m, rowidx, k1, s, res) is Err,
    ensures
        lines_row(m, rowidx, k2, s, res) == lines_row(m, rowidx, k1, s, res),
    decreases k2 - k1,
{
    if k2 > k1 {
        lemma_lines_row_persists(m, rowidx, k1, k2 - 1, s, res);
    }
}

/// A failed row keeps the connector pass failed.
proof fn lemma_lines_view_persists(
    m: RMatrixView,
    r1: int,
    r2: int,
    s: StyleView,
    res: crate::fonts::ResourcesView,
)
    requires
        0 <= r1 <= r2,
        lines_view(m, r1, s, res) is Err,
    ensures
        lines_view(m, r2, s, res) == lines_view(m, r1, s, res),
    decreases r2 - r1,
{
    if r2 > r1 {
        lemma_lines_view_persists(m, r1, r2 - 1, s, res);
    }
}

/// Draws one connector line with its label.
#[verifier::rlimit(100)]
#[verifier::spinoff_prover]
fn connector_exec(
    l0: i8,
    l1: i8,
    ltype: crate::model::HeadLineType,
    lx: i64,
    ly: i64,
    rx: i64,
    ry: i64,
    style: &Style,
    res: &Resources,
) -> (r: Vec<GraphicItem>)
    requires
        style@.wf(),
        res@.wf(),
        -COORD_LIMIT <= lx <= COORD_LIMIT,
        -COORD_LIMIT <= ly <= COORD_LIMIT,
        -COORD_LIMIT <= rx <= COORD_LIMIT,
        -COORD_LIMIT <= ry <= COORD_LIMIT,
    ensures
        r.deep_view() == connector_view(
            l0,
            l1,
            ltype,
            lx as int,
            ly as int,
            rx as int,
            ry as int,
            style@,
            res@,
        ),
{
    let step = style.space_step;
    proof {
        assert(1 <= step <= 1000);
    }
    let x: i64 = lx + 36 * step;
    let x2: i64 = rx - 8 * step;
    let t0 = crate::beams::level_times_half(l0 as i64, style);
    let t1 = crate::beams::level_times_half(l1 as i64, style);
    let y: i64 = ly + t0 + 4;
    let y2: i64 = ry + t1 + 4;
    let xmid: i64 = x + div_trunc_i64(x2 - x, 2);
    let ymid: i64 = y + div_trunc_i64(y2 - y, 2);
    match ltype {
        crate::model::HeadLineType::Halfstep => {
            let mut ops: Vec<PathSegment> = Vec::new();
            proof {
                assert(ops.deep_view() =~= Seq::<PathSegmentView>::empty());
            }
            push_item(&mut ops, PathSegment::M(x, y));
            push_item(&mut ops, PathSegment::L(xmid, ymid + 15));
            push_item(&mut ops, PathSegment::L(x2, y2));
            proof {
                assert(ops.deep_view() =~= seq![
                    PathSegmentView::M(x as int, y as int),
                    PathSegmentView::L(xmid as int, ymid + 15),
                    PathSegmentView::L(x2 as int, y2 as int),
                ]);
            }
            let mut v: Vec<GraphicItem> = Vec::new();
            proof {
                assert(v.deep_view() =~= Seq::<GraphicItemView>::empty());
            }
            push_item(
                &mut v,
                GraphicItem::Path(
                    ops,
                    Stroke::Strokestyle(5, Color::Tomato),
                    Fill::NoFill,
                    PathCacheInfo::NoCache,
                ),
            );
            push_item(
                &mut v,
                crate::resolve::scaled_text_item(
                    &res.labels,
                    '\u{bd}',
                    style.halfstep_label_scale_milli,
                    style.halfstep_label_scale_milli,
                    xmid - 10,
                    ymid + 56,
                ),
            );
            proof {
                assert(v.deep_view() =~= connector_view(
                    l0,
                    l1,
                    ltype,
                    lx as int,
                    ly as int,
                    rx as int,
                    ry as int,
                    style@,
                    res@,
                ));
            }
            v
        },
        crate::model::HeadLineType::Wholestep => {
            let mut ops: Vec<PathSegment> = Vec::new();
            proof {
                assert(ops.deep_view() =~= Seq::<PathSegmentView>::empty());
            }
            push_item(&mut ops, PathSegment::M(x, y));
            push_item(&mut ops, PathSegment::L(x2, y2));
            proof {
                assert(ops.deep_view() =~= seq![
                    PathSegmentView::M(x as int, y as int),
                    PathSegmentView::L(x2 as int, y2 as int),
                ]);
            }
            let mut v: Vec<GraphicItem> = Vec::new();
            proof {
                assert(v.deep_view() =~= Seq::<GraphicItemView>::empty());
            }
            push_item(
                &mut v,
                GraphicItem::Path(
                    ops,
                    Stroke::Strokestyle(5, Color::Dodgerblue),
                    Fill::NoFill,
                    PathCacheInfo::NoCache,
                ),
            );
            push_item(
                &mut v,
                crate::resolve::scaled_text_item(
                    &res.labels,
                    '1',
                    style.wholestep_label_scale_milli,
                    style.wholestep_label_scale_milli,
                    xmid - 10,
                    ymid - 30,
                ),
            );
            proof {
                assert(v.deep_view() =~= connector_view(
                    l0,
                    l1,
                    ltype,
                    lx as int,
                    ly as int,
                    rx as int,
                    ry as int,
                    style@,
                    res@,
                ));
            }
            v
        },
        crate::model::HeadLineType::LineColor(c) => one_item(
            GraphicItem::Line(
                x,
                y,
                x2,
                y2,
                Stroke::Strokestyle(5, crate::resolve::ncolor2color(c)),
            ),
        ),
        crate::model::HeadLineType::Plain => one_item(
            GraphicItem::Line(x, y, x2, y2, Stroke::Strokestyle(5, Color::Black)),
        ),
    }
}

/// Draws the inter-event connector lines of every row: for each pair of
/// horizontally adjacent events, every line spec carried by the right
/// event.  A paired event without coordinates aborts the render.
#[verifier::rlimit(100)]
#[verifier::spinoff_prover]
pub fn output_lines(matrix: &RMatrix, style: &Style, res: &Resources) -> (r: Result<
    Vec<GraphicItem>,
    RenderError,
>)
    requires
        matrix_ok(matrix@),
        style@.wf(),
        res@.wf(),
    ensures
        ({
            let spec = lines_view(matrix@, matrix@.rows.len() as int, style@, res@);
            match r {
                Ok(v) => spec == Ok::<_, RenderError>(v.deep_view()),
                Err(e) => spec == Err::<Seq<GraphicItemView>, _>(e),
            }
        }),
{
    let ghost m = matrix@;
    let mut items: Vec<GraphicItem> = Vec::new();
    proof {
        assert(items.deep_view() =~= Seq::<GraphicItemView>::empty());
    }
    let mut rowidx: usize = 0;
    while rowidx < matrix.rows.len()
        invariant
            rowidx <= matrix.rows.len(),
            m == matrix@,
            matrix_ok(m),
            style@.wf(),
            res@.wf(),
            lines_view(m, rowidx as int, style@, res@) == Ok::<_, RenderError>(
                items.deep_view(),
            ),
        decreases matrix.rows.len() - rowidx,
    {
        proof {
            assert(m.rows[rowidx as int] == matrix@.rows[rowidx as int]);
        }
        let row = &matrix.rows[rowidx];
        let ghost ritems = m.rows[rowidx as int].items;
        let ghost rowstart = items.deep_view();
        proof {
            assert(items.deep_view().skip(rowstart.len() as int)
                =~= Seq::<GraphicItemView>::empty());
        }
        let npairs: usize = if row.items.len() == 0 {
            0
        } else {
            row.items.len() - 1
        };
        let mut pairidx: usize = 0;
        while pairidx < npairs
            invariant
                pairidx <= npairs,
                m == matrix@,
                matrix_ok(m),
                style@.wf(),
                res@.wf(),
                rowidx < m.rows.len(),
                row == &matrix.rows[rowidx as int],
                ritems == m.rows[rowidx as int].items,
                ritems.len() == row.items.len(),
                npairs == if ritems.len() == 0 { 0int } else { ritems.len() - 1 },
                lines_view(m, rowidx as int, style@, res@) == Ok::<_, RenderError>(rowstart),
                lines_row(m, rowidx as int, pairidx as int, style@, res@) == Ok::<
                    _,
                    RenderError,
                >(items.deep_view().skip(rowstart.len() as int)),
                items.deep_view().take(rowstart.len() as int) == rowstart,
                items.deep_view().len() >= rowstart.len(),
            decreases npairs - pairidx,
        {
            proof {
                assert(ritems[pairidx as int] == row.items@[pairidx as int]);
                assert(ritems[pairidx as int + 1] == row.items@[pairidx as int + 1]);
            }
            let ghost sofar = items.deep_view().skip(rowstart.len() as int);
            match (row.items[pairidx], row.items[pairidx + 1]) {
                (Some(lid), Some(rid)) => {
                    proof {
                        assert(match m.rows[rowidx as int].items[pairidx as int] {
                            Some(q) => q < m.events.len(),
                            None => true,
                        });
                        assert(match m.rows[rowidx as int].items[pairidx as int + 1] {
                            Some(q) => q < m.events.len(),
                            None => true,
                        });
                        assert(lid < m.events.len() && rid < m.events.len());
                        assert(crate::model::item_ok(m.events[lid as int]));
                        assert(crate::model::item_ok(m.events[rid as int]));
                    }
                    let lev = &matrix.events[lid];
                    let rev = &matrix.events[rid];
                    match (lev.coord_x, lev.coord_y, rev.coord_x, rev.coord_y) {
                        (Some(lx), Some(ly), Some(rx), Some(ry)) => {
                            let ghost rlines = m.events[rid as int].lines;
                            let ghost pairstart = items.deep_view();
                            let mut k: usize = 0;
                            while k < rev.lines.len()
                                invariant
                                    k <= rev.lines.len(),
                                    m == matrix@,
                                    matrix_ok(m),
                                    style@.wf(),
                                    res@.wf(),
                                    rid < m.events.len(),
                                    rev == &matrix.events[rid as int],
                                    rlines == m.events[rid as int].lines,
                                    rlines.len() == rev.lines.len(),
                                    -COORD_LIMIT <= lx <= COORD_LIMIT,
                                    -COORD_LIMIT <= ly <= COORD_LIMIT,
                                    -COORD_LIMIT <= rx <= COORD_LIMIT,
                                    -COORD_LIMIT <= ry <= COORD_LIMIT,
                                    items.deep_view() == pairstart + pair_lines(
                                        rlines,
                                        k as int,
                                        lx as int,
                                        ly as int,
                                        rx as int,
                                        ry as int,
                                        style@,
                                        res@,
                                    ),
                                decreases rev.lines.len() - k,
                            {
                                proof {
                                    assert(rlines[k as int] == rev.lines@[k as int]);
                                }
                                let spec_line = rev.lines[k];
                                let conn = connector_exec(
                                    spec_line.0,
                                    spec_line.1,
                                    spec_line.2,
                                    lx,
                                    ly,
                                    rx,
                                    ry,
                                    style,
                                    res,
                                );
                                append_items(&mut items, conn);
                                k += 1;
                            }
                            proof {
                                assert(items.deep_view().skip(rowstart.len() as int) =~= sofar
                                    + pair_lines(
                                    rlines,
                                    rlines.len() as int,
                                    lx as int,
                                    ly as int,
                                    rx as int,
                                    ry as int,
                                    style@,
                                    res@,
                                ));
                                assert(items.deep_view().take(rowstart.len() as int) =~= rowstart);
                            }
                        },
                        _ => {
                            let e = RenderError::MissingCoordinate;
                            proof {
                                assert(lines_row(
                                    m,
                                    rowidx as int,
                                    pairidx as int + 1,
                                    style@,
                                    res@,
                                ) == Err::<Seq<GraphicItemView>, _>(e));
                                lemma_lines_row_persists(
                                    m,
                                    rowidx as int,
                                    pairidx as int + 1,
                                    npairs as int,
                                    style@,
                                    res@,
                                );
                                assert(lines_view(m, rowidx as int + 1, style@, res@)
                                    == Err::<Seq<GraphicItemView>, _>(e));
                                lemma_lines_view_persists(
                                    m,
                                    rowidx as int + 1,
                                    m.rows.len() as int,
                                    style@,
                                    res@,
                                );
                            }
                            return Err(e);
                        },
                    }
                },
                _ => {},
            }
            pairidx += 1;
        }
        proof {
            assert(items.deep_view() =~= rowstart + items.deep_view().skip(
                rowstart.len() as int,
            ));
        }
        rowidx += 1;
    }
    Ok(items)
}

/// What one render pass draws and reports, in fixed paint order: staff
/// lines, the system brace, per-event shapes, beam groups, ties,
/// inter-event connectors, and row decorations.  Later entries paint on
/// top.  The pass is a function of the layout, style, resources and the
/// diagnostic flag alone.
pub open spec fn compose_view(
    m: RMatrixView,
    s: StyleView,
    res: crate::fonts::ResourcesView,
    dev: bool,
) -> Result<(Seq<GraphicItemView>, Seq<Diagnostic>), RenderError> {
    match main_elements_view(m, m.cols.len() as int, s, res, dev) {
        Err(e) => Err(e),
        Ok(main) => match beamgroups_view(m, m.rows.len() as int, s) {
            Err(e) => Err(e),
            Ok(beams) => match crate::ties::output_ties_view(m, s) {
                Err(e) => Err(e),
                Ok(ties) => match lines_view(m, m.rows.len() as int, s, res) {
                    Err(e) => Err(e),
                    Ok(lines) => Ok(
                        (
                            notelines_view(m, m.rows.len() as int, s) + ackolades_view(m, s)
                                + main + beams.0 + ties.0 + lines + row_nrects_rows(
                                m,
                                m.rows.len() as int,
                                s,
                                res,
                                dev,
                            ),
                            beams.1 + ties.1,
                        ),
                    ),
                },
            },
        },
    }
}

/// Renders one layout into its ordered primitive list, noting soft
/// conditions in the diagnostics sink and aborting on the first fatal
/// model inconsistency.
#[verifier::rlimit(100)]
#[verifier::spinoff_prover]
pub fn compose(
    matrix: &RMatrix,
    style: &Style,
    res: &Resources,
    draw_dev_frames: bool,
    diags: &mut Vec<Diagnostic>,
) -> (r: Result<Vec<GraphicItem>, RenderError>)
    requires
        matrix_ok(matrix@),
        style@.wf(),
        res@.wf(),
    ensures
        ({
            let spec = compose_view(matrix@, style@, res@, draw_dev_frames);
            match r {
                Ok(v) => {
                    &&& spec is Ok
                    &&& v.deep_view() == spec.unwrap().0
                    &&& final(diags)@ == old(diags)@ + spec.unwrap().1
                },
                Err(e) => spec == Err::<(Seq<GraphicItemView>, Seq<Diagnostic>), RenderError>(e),
            }
        }),
{
    let main = match output_main_elements(matrix, style, res, draw_dev_frames) {
        Ok(v) => v,
        Err(e) => {
            return Err(e);
        },
    };
    let ghost d0 = diags@;
    let beams = match output_beamgroups(matrix, style, diags) {
        Ok(v) => v,
        Err(e) => {
            return Err(e);
        },
    };
    let ties = match crate::ties::output_ties(matrix, style, diags) {
        Ok(v) => v,
        Err(e) => {
            return Err(e);
        },
    };
    let lines = match output_lines(matrix, style, res) {
        Ok(v) => v,
        Err(e) => {
            return Err(e);
        },
    };
    let mut out = output_notelines(matrix, style);
    append_items(&mut out, output_ackolades(matrix, style));
    append_items(&mut out, main);
    append_items(&mut out, beams);
    append_items(&mut out, ties);
    append_items(&mut out, lines);
    append_items(&mut out, output_row_nrects(matrix, style, res, draw_dev_frames));
    proof {
        let spec = compose_view(matrix@, style@, res@, draw_dev_frames);
        assert(out.deep_view() =~= spec.unwrap().0);
        assert(diags@ =~= old(diags)@ + spec.unwrap().1);
    }
    Ok(out)
}

/// Determinism: a render pass is a function of its inputs, so two passes
/// over the same layout with the same style, resources and flag yield
/// identical primitive lists and diagnostics.
pub proof fn lemma_compose_deterministic(
    a: (Seq<GraphicItemView>, Seq<Diagnostic>),
    b: (Seq<GraphicItemView>, Seq<Diagnostic>),
    m: RMatrixView,
    s: StyleView,
    res: crate::fonts::ResourcesView,
    dev: bool,
)
    requires
        compose_view(m, s, res, dev) == Ok::<_, RenderError>(a),
        compose_view(m, s, res, dev) == Ok::<_, RenderError>(b),
    ensures
        a == b,
{
}

/// With the diagnostic flag off a shape resolves to a prefix-preserving
/// selection of what it resolves to with the flag on: diagnostic kinds
/// drop to nothing, all others are unchanged.
#[verifier::rlimit(100)]
pub proof fn lemma_resolve_dev_subsequence(
    n: crate::model::NRectExtView,
    mx: int,
    my: int,
    s: StyleView,
    res: crate::fonts::ResourcesView,
)
    ensures
        is_subsequence(
            crate::resolve::resolve_view(n, mx, my, s, res, false),
            crate::resolve::resolve_view(n, mx, my, s, res, true),
        ),
{
    let f = crate::resolve::resolve_view(n, mx, my, s, res, false);
    let t = crate::resolve::resolve_view(n, mx, my, s, res, true);
    match n.kind {
        crate::model::NRectType::TieFrom(_, _, ttype, _, _, _, _) => match ttype {
            crate::model::TieFromType::Standard => {
                assert(f.len() == 0);
            },
            _ => {
                assert(f == t);
                crate::prim::lemma_subsequence_refl(f);
            },
        },
        crate::model::NRectType::TieTo(tt) => match tt {
            crate::model::TieToType::ResolveTieFrom(_, _) => {
                assert(f.len() == 0);
            },
            crate::model::TieToType::LetRing => {
                assert(f == t);
                crate::prim::lemma_subsequence_refl(f);
            },
        },
        crate::model::NRectType::Dev(_, _) => {
            assert(f.len() == 0);
        },
        _ => {
            assert(f == t);
            crate::prim::lemma_subsequence_refl(f);
        },
    }
}

/// One event's shapes without the flag are a subsequence of its shapes
/// with the flag.
proof fn lemma_event_shapes_subsequence(
    nrects: Seq<crate::model::NRectExtView>,
    j: int,
    cx: int,
    cy: int,
    zero_duration: bool,
    s: StyleView,
    res: crate::fonts::ResourcesView,
)
    ensures
        is_subsequence(
            event_shapes(nrects, j, cx, cy, zero_duration, s, res, false),
            event_shapes(nrects, j, cx, cy, zero_duration, s, res, true),
        ),
    decreases j,
{
    if j <= 0 {
    } else {
        lemma_event_shapes_subsequence(nrects, j - 1, cx, cy, zero_duration, s, res);
        let frame_color = if zero_duration {
            crate::model::NColor::Orange
        } else {
            crate::model::NColor::Red
        };
        let frame = crate::model::NRectExtView {
            rect: nrects[j - 1].rect,
            kind: crate::model::NRectType::Dev(false, frame_color),
        };
        let frames_f: Seq<GraphicItemView> = if zero_duration {
            crate::resolve::resolve_view(frame, cx, cy, s, res, false)
        } else {
            Seq::empty()
        };
        let frames_t: Seq<GraphicItemView> = crate::resolve::resolve_view(
            frame,
            cx,
            cy,
            s,
            res,
            true,
        );
        assert(frames_f.len() == 0);
        assert(is_subsequence(frames_f, frames_t));
        lemma_resolve_dev_subsequence(nrects[j - 1], cx, cy, s, res);
        crate::prim::lemma_subsequence_concat(
            frames_f,
            frames_t,
            crate::resolve::resolve_view(nrects[j - 1], cx, cy, s, res, false),
            crate::resolve::resolve_view(nrects[j - 1], cx, cy, s, res, true),
        );
        crate::prim::lemma_subsequence_concat(
            event_shapes(nrects, j - 1, cx, cy, zero_duration, s, res, false),
            event_shapes(nrects, j - 1, cx, cy, zero_duration, s, res, true),
            frames_f + crate::resolve::resolve_view(nrects[j - 1], cx, cy, s, res, false),
            frames_t + crate::resolve::resolve_view(nrects[j - 1], cx, cy, s, res, true),
        );
        assert(event_shapes(nrects, j, cx, cy, zero_duration, s, res, false)
            =~= event_shapes(nrects, j - 1, cx, cy, zero_duration, s, res, false) + (frames_f
            + crate::resolve::resolve_view(nrects[j - 1], cx, cy, s, res, false)));
        assert(event_shapes(nrects, j, cx, cy, zero_duration, s, res, true)
            =~= event_shapes(nrects, j - 1, cx, cy, zero_duration, s, res, true) + (frames_t
            + crate::resolve::resolve_view(nrects[j - 1], cx, cy, s, res, true)));
    }
}

/// One column's slots without the flag fail exactly when they fail with
/// it, and otherwise draw a subsequence.
proof fn lemma_main_col_subsequence(
    m: RMatrixView,
    c: int,
    k: int,
    s: StyleView,
    res: crate::fonts::ResourcesView,
)
    ensures
        main_col_slots(m, c, k, s, res, false) is Err <==> main_col_slots(
            m,
            c,
            k,
            s,
            res,
            true,
        ) is Err,
        main_col_slots(m, c, k, s, res, false) is Err ==> main_col_slots(m, c, k, s, res, false)
            == main_col_slots(m, c, k, s, res, true),
        main_col_slots(m, c, k, s, res, false) is Ok ==> is_subsequence(
            main_col_slots(m, c, k, s, res, false).unwrap(),
            main_col_slots(m, c, k, s, res, true).unwrap(),
        ),
    decreases k,
{
    if k <= 0 {
    } else {
        lemma_main_col_subsequence(m, c, k - 1, s, res);
        if main_col_slots(m, c, k - 1, s, res, false) is Ok {
            match m.cols[c].items[k - 1] {
                Some(id) => {
                    let ev = m.events[id as int];
                    match (ev.coord_x, ev.coord_y) {
                        (Some(cx), Some(cy)) => {
                            lemma_event_shapes_subsequence(
                                ev.nrects,
                                ev.nrects.len() as int,
                                cx,
                                cy,
                                m.cols[c].duration == 0,
                                s,
                                res,
                            );
                            crate::prim::lemma_subsequence_concat(
                                main_col_slots(m, c, k - 1, s, res, false).unwrap(),
                                main_col_slots(m, c, k - 1, s, res, true).unwrap(),
                                event_shapes(
                                    ev.nrects,
                                    ev.nrects.len() as int,
                                    cx,
                                    cy,
                                    m.cols[c].duration == 0,
                                    s,
                                    res,
                                    false,
                                ),
                                event_shapes(
                                    ev.nrects,
                                    ev.nrects.len() as int,
                                    cx,
                                    cy,
                                    m.cols[c].duration == 0,
                                    s,
                                    res,
                                    true,
                                ),
                            );
                        },
                        _ => {},
                    }
                },
                None => {
                    assert(empty_slot_view(m.cols[c].x, m.rows[k - 1].y, s, res, false).len()
                        == 0);
                    crate::prim::lemma_subsequence_concat(
                        main_col_slots(m, c, k - 1, s, res, false).unwrap(),
                        main_col_slots(m, c, k - 1, s, res, true).unwrap(),
                        empty_slot_view(m.cols[c].x, m.rows[k - 1].y, s, res, false),
                        empty_slot_view(m.cols[c].x, m.rows[k - 1].y, s, res, true),
                    );
                },
            }
        }
    }
}

/// The whole per-event pass without the flag draws a subsequence of the
/// pass with it, failing in exactly the same way.
proof fn lemma_main_elements_subsequence(
    m: RMatrixView,
    c: int,
    s: StyleView,
    res: crate::fonts::ResourcesView,
)
    ensures
        main_elements_view(m, c, s, res, false) is Err <==> main_elements_view(
            m,
            c,
            s,
            res,
            true,
        ) is Err,
        main_elements_view(m, c, s, res, false) is Err ==> main_elements_view(m, c, s, res, false)
            == main_elements_view(m, c, s, res, true),
        main_elements_view(m, c, s, res, false) is Ok ==> is_subsequence(
            main_elements_view(m, c, s, res, false).unwrap(),
            main_elements_view(m, c, s, res, true).unwrap(),
        ),
    decreases c,
{
    if c <= 0 {
    } else {
        lemma_main_elements_subsequence(m, c - 1, s, res);
        lemma_main_col_subsequence(m, c - 1, m.cols[c - 1].items.len() as int, s, res);
        if main_elements_view(m, c - 1, s, res, false) is Ok && main_col_slots(
            m,
            c - 1,
            m.cols[c - 1].items.len() as int,
            s,
            res,
            false,
        ) is Ok {
            crate::prim::lemma_subsequence_concat(
                main_elements_view(m, c - 1, s, res, false).unwrap(),
                main_elements_view(m, c - 1, s, res, true).unwrap(),
                main_col_slots(m, c - 1, m.cols[c - 1].items.len() as int, s, res, false).unwrap(),
                main_col_slots(m, c - 1, m.cols[c - 1].items.len() as int, s, res, true).unwrap(),
            );
        }
    }
}

/// One row's decorations without the flag are a subsequence of those
/// with it.
proof fn lemma_row_shapes_subsequence(
    shapes: Seq<crate::model::NRectExtView>,
    k: int,
    y: int,
    s: StyleView,
    res: crate::fonts::ResourcesView,
)
    ensures
        is_subsequence(
            row_shapes(shapes, k, y, s, res, false),
            row_shapes(shapes, k, y, s, res, true),
        ),
    decreases k,
{
    if k > 0 {
        lemma_row_shapes_subsequence(shapes, k - 1, y, s, res);
        lemma_resolve_dev_subsequence(shapes[k - 1], 0, y, s, res);
        crate::prim::lemma_subsequence_concat(
            row_shapes(shapes, k - 1, y, s, res, false),
            row_shapes(shapes, k - 1, y, s, res, true),
            crate::resolve::resolve_view(shapes[k - 1], 0, y, s, res, false),
            crate::resolve::resolve_view(shapes[k - 1], 0, y, s, res, true),
        );
    }
}

/// Every row's decorations without the flag are a subsequence of those
/// with it.
proof fn lemma_row_nrects_subsequence(
    m: RMatrixView,
    r: int,
    s: StyleView,
    res: crate::fonts::ResourcesView,
)
    ensures
        is_subsequence(
            row_nrects_rows(m, r, s, res, false),
            row_nrects_rows(m, r, s, res, true),
        ),
    decreases r,
{
    if r > 0 {
        lemma_row_nrects_subsequence(m, r - 1, s, res);
        lemma_row_shapes_subsequence(
            m.rows[r - 1].nrects,
            m.rows[r - 1].nrects.len() as int,
            m.rows[r - 1].y,
            s,
            res,
        );
        crate::prim::lemma_subsequence_concat(
            row_nrects_rows(m, r - 1, s, res, false),
            row_nrects_rows(m, r - 1, s, res, true),
            row_shapes(
                m.rows[r - 1].nrects,
                m.rows[r - 1].nrects.len() as int,
                m.rows[r - 1].y,
                s,
                res,
                false,
            ),
            row_shapes(
                m.rows[r - 1].nrects,
                m.rows[r - 1].nrects.len() as int,
                m.rows[r - 1].y,
                s,
                res,
                true,
            ),
        );
    }
}

/// Paint-order idempotence: a pass with the diagnostic flag off fails
/// exactly when a pass with it on fails, and otherwise produces a
/// primitive list that is a subsequence, in order, of the flag-on list.
#[verifier::rlimit(100)]
pub proof fn lemma_paint_order_subsequence(
    m: RMatrixView,
    s: StyleView,
    res: crate::fonts::ResourcesView,
)
    ensures
        compose_view(m, s, res, false) is Err <==> compose_view(m, s, res, true) is Err,
        compose_view(m, s, res, false) is Err ==> compose_view(m, s, res, false) == compose_view(
            m,
            s,
            res,
            true,
        ),
        compose_view(m, s, res, false) is Ok ==> is_subsequence(
            compose_view(m, s, res, false).unwrap().0,
            compose_view(m, s, res, true).unwrap().0,
        ),
{
    lemma_main_elements_subsequence(m, m.cols.len() as int, s, res);
    if compose_view(m, s, res, false) is Ok {
        let nl = notelines_view(m, m.rows.len() as int, s);
        let br = ackolades_view(m, s);
        let main_f = main_elements_view(m, m.cols.len() as int, s, res, false).unwrap();
        let main_t = main_elements_view(m, m.cols.len() as int, s, res, true).unwrap();
        let beams = beamgroups_view(m, m.rows.len() as int, s).unwrap();
        let ties = crate::ties::output_ties_view(m, s).unwrap();
        let lines = lines_view(m, m.rows.len() as int, s, res).unwrap();
        let rn_f = row_nrects_rows(m, m.rows.len() as int, s, res, false);
        let rn_t = row_nrects_rows(m, m.rows.len() as int, s, res, true);
        crate::prim::lemma_subsequence_refl(nl + br);
        crate::prim::lemma_subsequence_concat(nl + br, nl + br, main_f, main_t);
        crate::prim::lemma_subsequence_refl(beams.0 + ties.0 + lines);
        lemma_row_nrects_subsequence(m, m.rows.len() as int, s, res);
        crate::prim::lemma_subsequence_concat(
            beams.0 + ties.0 + lines,
            beams.0 + ties.0 + lines,
            rn_f,
            rn_t,
        );
        crate::prim::lemma_subsequence_concat(
            nl + br + main_f,
            nl + br + main_t,
            beams.0 + ties.0 + lines + rn_f,
            beams.0 + ties.0 + lines + rn_t,
        );
        assert(compose_view(m, s, res, false).unwrap().0 =~= (nl + br + main_f) + (beams.0
            + ties.0 + lines + rn_f));
        assert(compose_view(m, s, res, true).unwrap().0 =~= (nl + br + main_t) + (beams.0 + ties.0
            + lines + rn_t));
    }
}

} // verus!
