use crate::geom::{div_trunc, div_trunc_i64};
use crate::fonts::{outline_within, seg_within};
use crate::prim::{
    push_item, Fill, GraphicItem, GraphicItemView, PathCacheInfo, PathSegment, PathSegmentView,
    Stroke, StrokeView,
};
use vstd::prelude::*;

verus! {

/// One path operation with its y coordinates negated: outline tables are
/// defined in an inverted coordinate convention and are flipped on the y
/// axis before placement.
pub open spec fn flip_seg(s: PathSegmentView) -> PathSegmentView {
    match s {
        PathSegmentView::M(x, y) => PathSegmentView::M(x, -y),
        PathSegmentView::L(x, y) => PathSegmentView::L(x, -y),
        PathSegmentView::Q(x1, y1, x, y) => PathSegmentView::Q(x1, -y1, x, -y),
        PathSegmentView::C(x1, y1, x2, y2, x, y) => PathSegmentView::C(x1, -y1, x2, -y2, x, -y),
        PathSegmentView::Z => PathSegmentView::Z,
    }
}

/// A whole outline flipped on the y axis.
pub open spec fn inv01_spec(s: Seq<PathSegmentView>) -> Seq<PathSegmentView> {
    Seq::new(s.len(), |i: int| flip_seg(s[i]))
}

/// One path operation translated by `(mx, my)`.
pub open spec fn move_seg(s: PathSegmentView, mx: int, my: int) -> PathSegmentView {
    match s {
        PathSegmentView::M(x, y) => PathSegmentView::M(x + mx, y + my),
        PathSegmentView::L(x, y) => PathSegmentView::L(x + mx, y + my),
        PathSegmentView::Q(x1, y1, x, y) => PathSegmentView::Q(x1 + mx, y1 + my, x + mx, y + my),
        PathSegmentView::C(x1, y1, x2, y2, x, y) => PathSegmentView::C(
            x1 + mx,
            y1 + my,
            x2 + mx,
            y2 + my,
            x + mx,
            y + my,
        ),
        PathSegmentView::Z => PathSegmentView::Z,
    }
}

/// A whole outline translated by `(mx, my)`.
pub open spec fn move_path_spec(s: Seq<PathSegmentView>, mx: int, my: int) -> Seq<
    PathSegmentView,
> {
    Seq::new(s.len(), |i: int| move_seg(s[i], mx, my))
}

/// One coordinate scaled by a factor in thousandths, truncating toward
/// zero.
pub open spec fn scale_coord(c: int, milli: int) -> int {
    div_trunc(c * milli, 1000)
}

/// One path operation scaled by `(sx, sy)`, each in thousandths.
pub open spec fn scale_seg(s: PathSegmentView, sx: int, sy: int) -> PathSegmentView {
    match s {
        PathSegmentView::M(x, y) => PathSegmentView::M(scale_coord(x, sx), scale_coord(y, sy)),
        PathSegmentView::L(x, y) => PathSegmentView::L(scale_coord(x, sx), scale_coord(y, sy)),
        PathSegmentView::Q(x1, y1, x, y) => PathSegmentView::Q(
            scale_coord(x1, sx),
            scale_coord(y1, sy),
            scale_coord(x, sx),
            scale_coord(y, sy),
        ),
        PathSegmentView::C(x1, y1, x2, y2, x, y) => PathSegmentView::C(
            scale_coord(x1, sx),
            scale_coord(y1, sy),
            scale_coord(x2, sx),
            scale_coord(y2, sy),
            scale_coord(x, sx),
            scale_coord(y, sy),
        ),
        PathSegmentView::Z => PathSegmentView::Z,
    }
}

/// A whole outline scaled by `(sx, sy)`, each in thousandths.
pub open spec fn scale_path_spec(s: Seq<PathSegmentView>, sx: int, sy: int) -> Seq<
    PathSegmentView,
> {
    Seq::new(s.len(), |i: int| scale_seg(s[i], sx, sy))
}

/// Flipping keeps an outline within its bound.
pub proof fn lemma_inv01_within(s: Seq<PathSegmentView>, b: int)
    requires
        outline_within(s, b),
    ensures
        outline_within(inv01_spec(s), b),
{
    assert forall|i: int| 0 <= i < inv01_spec(s).len() implies seg_within(
        #[trigger] inv01_spec(s)[i],
        b,
    ) by {
        assert(seg_within(s[i], b));
    }
}

/// Translating widens an outline's bound by the translation's magnitude.
pub proof fn lemma_move_within(s: Seq<PathSegmentView>, b: int, mx: int, my: int, m: int)
    requires
        outline_within(s, b),
        -m <= mx <= m,
        -m <= my <= m,
        0 <= m,
    ensures
        outline_within(move_path_spec(s, mx, my), b + m),
{
    assert forall|i: int| 0 <= i < move_path_spec(s, mx, my).len() implies seg_within(
        #[trigger] move_path_spec(s, mx, my)[i],
        b + m,
    ) by {
        assert(seg_within(s[i], b));
    }
}

/// A scaled coordinate's bound.
pub proof fn lemma_scale_coord_within(c: int, milli: int, b: int)
    requires
        -b <= c <= b,
        0 <= b,
        -10000 <= milli <= 10000,
    ensures
        -10 * b <= scale_coord(c, milli) <= 10 * b,
{
    assert(-(10000 * b) <= c * milli <= 10000 * b) by (nonlinear_arith)
        requires
            -b <= c <= b,
            0 <= b,
            -10000 <= milli <= 10000,
    ;
    crate::geom::lemma_div_trunc_bound(c * milli, 1000);
    if c * milli >= 0 {
        vstd::arithmetic::div_mod::lemma_div_is_ordered(c * milli, 10000 * b, 1000);
        assert(10000 * b == 1000 * (10 * b)) by (nonlinear_arith);
        vstd::arithmetic::div_mod::lemma_div_multiples_vanish(10 * b, 1000);
    } else {
        vstd::arithmetic::div_mod::lemma_div_is_ordered(-(c * milli), 10000 * b, 1000);
        assert(10000 * b == 1000 * (10 * b)) by (nonlinear_arith);
        vstd::arithmetic::div_mod::lemma_div_multiples_vanish(10 * b, 1000);
    }
}

/// Scaling by at most tenfold widens an outline's bound tenfold.
pub proof fn lemma_scale_within(s: Seq<PathSegmentView>, b: int, sx: int, sy: int)
    requires
        outline_within(s, b),
        0 <= b,
        -10000 <= sx <= 10000,
        -10000 <= sy <= 10000,
    ensures
        outline_within(scale_path_spec(s, sx, sy), 10 * b),
{
    assert forall|i: int| 0 <= i < scale_path_spec(s, sx, sy).len() implies seg_within(
        #[trigger] scale_path_spec(s, sx, sy)[i],
        10 * b,
    ) by {
        assert(seg_within(s[i], b));
        let seg = s[i];
        match seg {
            PathSegmentView::M(x, y) => {
                lemma_scale_coord_within(x, sx, b);
                lemma_scale_coord_within(y, sy, b);
            },
            PathSegmentView::L(x, y) => {
                lemma_scale_coord_within(x, sx, b);
                lemma_scale_coord_within(y, sy, b);
            },
            PathSegmentView::Q(x1, y1, x, y) => {
                lemma_scale_coord_within(x1, sx, b);
                lemma_scale_coord_within(y1, sy, b);
                lemma_scale_coord_within(x, sx, b);
                lemma_scale_coord_within(y, sy, b);
            },
            PathSegmentView::C(x1, y1, x2, y2, x, y) => {
                lemma_scale_coord_within(x1, sx, b);
                lemma_scale_coord_within(y1, sy, b);
                lemma_scale_coord_within(x2, sx, b);
                lemma_scale_coord_within(y2, sy, b);
                lemma_scale_coord_within(x, sx, b);
                lemma_scale_coord_within(y, sy, b);
            },
            PathSegmentView::Z => {},
        }
    }
}

/// One operation flipped on the y axis.
fn flip_seg_i64(s: PathSegment) -> (r: PathSegment)
    requires
        seg_within(s@, 1000000000000),
    ensures
        r@ == flip_seg(s@),
{
    match s {
        PathSegment::M(x, y) => PathSegment::M(x, -y),
        PathSegment::L(x, y) => PathSegment::L(x, -y),
        PathSegment::Q(x1, y1, x, y) => PathSegment::Q(x1, -y1, x, -y),
        PathSegment::C(x1, y1, x2, y2, x, y) => PathSegment::C(x1, -y1, x2, -y2, x, -y),
        PathSegment::Z => PathSegment::Z,
    }
}

/// A bound on an outline also holds at any wider bound.
pub proof fn lemma_outline_widen(s: Seq<PathSegmentView>, b1: int, b2: int)
    requires
        outline_within(s, b1),
        b1 <= b2,
    ensures
        outline_within(s, b2),
{
    assert forall|i: int| 0 <= i < s.len() implies seg_within(#[trigger] s[i], b2) by {
        assert(seg_within(s[i], b1));
    }
}

/// A bound on two outlines holds of their concatenation.
pub proof fn lemma_outline_concat(a: Seq<PathSegmentView>, b: Seq<PathSegmentView>, bound: int)
    requires
        outline_within(a, bound),
        outline_within(b, bound),
    ensures
        outline_within(a + b, bound),
{
    assert forall|i: int| 0 <= i < (a + b).len() implies seg_within(#[trigger] (a + b)[i], bound) by {
        if i < a.len() {
            assert((a + b)[i] == a[i]);
        } else {
            assert((a + b)[i] == b[i - a.len()]);
        }
    }
}

/// An outline flipped on the y axis.
pub fn inv01(ops: &Vec<PathSegment>) -> (r: Vec<PathSegment>)
    requires
        outline_within(ops.deep_view(), 1000000000000),
    ensures
        r.deep_view() == inv01_spec(ops.deep_view()),
{
    let ghost all = inv01_spec(ops.deep_view());
    let mut r: Vec<PathSegment> = Vec::new();
    let mut i: usize = 0;
    while i < ops.len()
        invariant
            i <= ops.len(),
            outline_within(ops.deep_view(), 1000000000000),
            all == inv01_spec(ops.deep_view()),
            r.deep_view() == all.take(i as int),
        decreases ops.len() - i,
    {
        proof {
            assert(ops.deep_view()[i as int] == ops@[i as int]@);
            assert(seg_within(ops.deep_view()[i as int], 1000000000000));
        }
        let s = flip_seg_i64(ops[i]);
        crate::prim::push_item(&mut r, s);
        proof {
            assert(all.take(i as int + 1) =~= all.take(i as int).push(all[i as int]));
        }
        i += 1;
    }
    proof {
        assert(all.take(ops.deep_view().len() as int) =~= all);
    }
    r
}

/// One operation translated by `(mx, my)`.
fn move_seg_i64(s: PathSegment, mx: i64, my: i64) -> (r: PathSegment)
    requires
        seg_within(s@, 1000000000000),
        -1000000000000 <= mx <= 1000000000000,
        -1000000000000 <= my <= 1000000000000,
    ensures
        r@ == move_seg(s@, mx as int, my as int),
{
    match s {
        PathSegment::M(x, y) => PathSegment::M(x + mx, y + my),
        PathSegment::L(x, y) => PathSegment::L(x + mx, y + my),
        PathSegment::Q(x1, y1, x, y) => PathSegment::Q(x1 + mx, y1 + my, x + mx, y + my),
        PathSegment::C(x1, y1, x2, y2, x, y) => PathSegment::C(
            x1 + mx,
            y1 + my,
            x2 + mx,
            y2 + my,
            x + mx,
            y + my,
        ),
        PathSegment::Z => PathSegment::Z,
    }
}

/// An outline translated by `(mx, my)`.
pub fn move_path(ops: &Vec<PathSegment>, mx: i64, my: i64) -> (r: Vec<PathSegment>)
    requires
        outline_within(ops.deep_view(), 1000000000000),
        -1000000000000 <= mx <= 1000000000000,
        -1000000000000 <= my <= 1000000000000,
    ensures
        r.deep_view() == move_path_spec(ops.deep_view(), mx as int, my as int),
{
    let ghost all = move_path_spec(ops.deep_view(), mx as int, my as int);
    let mut r: Vec<PathSegment> = Vec::new();
    let mut i: usize = 0;
    while i < ops.len()
        invariant
            i <= ops.len(),
            outline_within(ops.deep_view(), 1000000000000),
            -1000000000000 <= mx <= 1000000000000,
            -1000000000000 <= my <= 1000000000000,
            all == move_path_spec(ops.deep_view(), mx as int, my as int),
            r.deep_view() == all.take(i as int),
        decreases ops.len() - i,
    {
        proof {
            assert(ops.deep_view()[i as int] == ops@[i as int]@);
            assert(seg_within(ops.deep_view()[i as int], 1000000000000));
        }
        let s = move_seg_i64(ops[i], mx, my);
        crate::prim::push_item(&mut r, s);
        proof {
            assert(all.take(i as int + 1) =~= all.take(i as int).push(all[i as int]));
        }
        i += 1;
    }
    proof {
        assert(all.take(ops.deep_view().len() as int) =~= all);
    }
    r
}

/// One coordinate scaled by a factor in thousandths.
pub fn scale_coord_i64(c: i64, milli: i64) -> (r: i64)
    requires
        -100000000 <= c <= 100000000,
        -10000 <= milli <= 10000,
    ensures
        r == scale_coord(c as int, milli as int),
{
    proof {
        assert(-(10000 * 100000000) <= c * milli <= 10000 * 100000000) by (nonlinear_arith)
            requires
                -100000000 <= c <= 100000000,
                -10000 <= milli <= 10000,
        ;
    }
    div_trunc_i64(c * milli, 1000)
}

/// One operation scaled by `(sx, sy)`, each in thousandths.
fn scale_seg_i64(s: PathSegment, sx_milli: i64, sy_milli: i64) -> (r: PathSegment)
    requires
        seg_within(s@, 100000000),
        -10000 <= sx_milli <= 10000,
        -10000 <= sy_milli <= 10000,
    ensures
        r@ == scale_seg(s@, sx_milli as int, sy_milli as int),
{
    match s {
        PathSegment::M(x, y) => PathSegment::M(
            scale_coord_i64(x, sx_milli),
            scale_coord_i64(y, sy_milli),
        ),
        PathSegment::L(x, y) => PathSegment::L(
            scale_coord_i64(x, sx_milli),
            scale_coord_i64(y, sy_milli),
        ),
        PathSegment::Q(x1, y1, x, y) => PathSegment::Q(
            scale_coord_i64(x1, sx_milli),
            scale_coord_i64(y1, sy_milli),
            scale_coord_i64(x, sx_milli),
            scale_coord_i64(y, sy_milli),
        ),
        PathSegment::C(x1, y1, x2, y2, x, y) => PathSegment::C(
            scale_coord_i64(x1, sx_milli),
            scale_coord_i64(y1, sy_milli),
            scale_coord_i64(x2, sx_milli),
            scale_coord_i64(y2, sy_milli),
            scale_coord_i64(x, sx_milli),
            scale_coord_i64(y, sy_milli),
        ),
        PathSegment::Z => PathSegment::Z,
    }
}

/// An outline scaled by `(sx, sy)`, each in thousandths.
pub fn scale_path(ops: &Vec<PathSegment>, sx_milli: i64, sy_milli: i64) -> (r: Vec<PathSegment>)
    requires
        outline_within(ops.deep_view(), 100000000),
        -10000 <= sx_milli <= 10000,
        -10000 <= sy_milli <= 10000,
    ensures
        r.deep_view() == scale_path_spec(ops.deep_view(), sx_milli as int, sy_milli as int),
{
    let ghost all = scale_path_spec(ops.deep_view(), sx_milli as int, sy_milli as int);
    let mut r: Vec<PathSegment> = Vec::new();
    let mut i: usize = 0;
    while i < ops.len()
        invariant
            i <= ops.len(),
            outline_within(ops.deep_view(), 100000000),
            -10000 <= sx_milli <= 10000,
            -10000 <= sy_milli <= 10000,
            all == scale_path_spec(ops.deep_view(), sx_milli as int, sy_milli as int),
            r.deep_view() == all.take(i as int),
        decreases ops.len() - i,
    {
        proof {
            assert(ops.deep_view()[i as int] == ops@[i as int]@);
            assert(seg_within(ops.deep_view()[i as int], 100000000));
        }
        let s = scale_seg_i64(ops[i], sx_milli, sy_milli);
        crate::prim::push_item(&mut r, s);
        proof {
            assert(all.take(i as int + 1) =~= all.take(i as int).push(all[i as int]));
        }
        i += 1;
    }
    proof {
        assert(all.take(ops.deep_view().len() as int) =~= all);
    }
    r
}

/// A stroke with its width scaled, in thousandths.
pub open spec fn scale_stroke(st: StrokeView, sw: int) -> StrokeView {
    match st {
        StrokeView::NoStroke => StrokeView::NoStroke,
        StrokeView::Strokestyle(w, c) => StrokeView::Strokestyle(scale_coord(w, sw), c),
    }
}

/// One primitive scaled per axis, its stroke width scaled separately.
pub open spec fn scale_item_view(it: GraphicItemView, sx: int, sy: int, sw: int) -> GraphicItemView {
    match it {
        GraphicItemView::Line(x, y, x2, y2, st) => GraphicItemView::Line(
            scale_coord(x, sx),
            scale_coord(y, sy),
            scale_coord(x2, sx),
            scale_coord(y2, sy),
            scale_stroke(st, sw),
        ),
        GraphicItemView::Rect(x, y, w, h, st, f) => GraphicItemView::Rect(
            scale_coord(x, sx),
            scale_coord(y, sy),
            scale_coord(w, sx),
            scale_coord(h, sy),
            scale_stroke(st, sw),
            f,
        ),
        GraphicItemView::Ellipse(x, y, w, h, st, f) => GraphicItemView::Ellipse(
            scale_coord(x, sx),
            scale_coord(y, sy),
            scale_coord(w, sx),
            scale_coord(h, sy),
            scale_stroke(st, sw),
            f,
        ),
        GraphicItemView::Path(ops, st, f, c) => GraphicItemView::Path(
            scale_path_spec(ops, sx, sy),
            scale_stroke(st, sw),
            f,
            c,
        ),
    }
}

/// A whole primitive list scaled.
pub open spec fn scale_items_view(s: Seq<GraphicItemView>, sx: int, sy: int, sw: int) -> Seq<
    GraphicItemView,
> {
    Seq::new(s.len(), |i: int| scale_item_view(s[i], sx, sy, sw))
}

/// Whether one primitive's numbers all lie within `b`.
pub open spec fn item_within(it: GraphicItemView, b: int) -> bool {
    match it {
        GraphicItemView::Line(x, y, x2, y2, st) => {
            &&& -b <= x <= b
            &&& -b <= y <= b
            &&& -b <= x2 <= b
            &&& -b <= y2 <= b
            &&& stroke_within(st, b)
        },
        GraphicItemView::Rect(x, y, w, h, st, _) => {
            &&& -b <= x <= b
            &&& -b <= y <= b
            &&& -b <= w <= b
            &&& -b <= h <= b
            &&& stroke_within(st, b)
        },
        GraphicItemView::Ellipse(x, y, w, h, st, _) => {
            &&& -b <= x <= b
            &&& -b <= y <= b
            &&& -b <= w <= b
            &&& -b <= h <= b
            &&& stroke_within(st, b)
        },
        GraphicItemView::Path(ops, st, _, _) => outline_within(ops, b) && stroke_within(st, b),
    }
}

/// Whether a stroke's width lies within `b`.
pub open spec fn stroke_within(st: StrokeView, b: int) -> bool {
    match st {
        StrokeView::NoStroke => true,
        StrokeView::Strokestyle(w, _) => -b <= w <= b,
    }
}

/// Whether every primitive of a list stays within `b`.
pub open spec fn items_within(s: Seq<GraphicItemView>, b: int) -> bool {
    forall|i: int| 0 <= i < s.len() ==> item_within(#[trigger] s[i], b)
}

/// One stroke scaled on machine integers.
fn scale_stroke_i64(st: Stroke, sw: i64) -> (r: Stroke)
    requires
        stroke_within(st@, 100000000),
        -10000 <= sw <= 10000,
    ensures
        r@ == scale_stroke(st@, sw as int),
{
    match st {
        Stroke::NoStroke => Stroke::NoStroke,
        Stroke::Strokestyle(w, c) => Stroke::Strokestyle(scale_coord_i64(w, sw), c),
    }
}

/// Scales a primitive list for embedding into a host document: every
/// coordinate by the per-axis factors and every stroke width by the
/// width factor, each in thousandths.
pub fn scale_items(items: &Vec<GraphicItem>, sx_milli: i64, sy_milli: i64, sw_milli: i64) -> (r:
    Vec<GraphicItem>)
    requires
        items_within(items.deep_view(), 100000000),
        -10000 <= sx_milli <= 10000,
        -10000 <= sy_milli <= 10000,
        -10000 <= sw_milli <= 10000,
    ensures
        r.deep_view() == scale_items_view(
            items.deep_view(),
            sx_milli as int,
            sy_milli as int,
            sw_milli as int,
        ),
{
    let ghost all = scale_items_view(
        items.deep_view(),
        sx_milli as int,
        sy_milli as int,
        sw_milli as int,
    );
    let mut r: Vec<GraphicItem> = Vec::new();
    proof {
        assert(r.deep_view() =~= Seq::<GraphicItemView>::empty());
    }
    let mut i: usize = 0;
    while i < items.len()
        invariant
            i <= items.len(),
            items_within(items.deep_view(), 100000000),
            -10000 <= sx_milli <= 10000,
            -10000 <= sy_milli <= 10000,
            -10000 <= sw_milli <= 10000,
            all == scale_items_view(
                items.deep_view(),
                sx_milli as int,
                sy_milli as int,
                sw_milli as int,
            ),
            r.deep_view() =~= all.take(i as int),
        decreases items.len() - i,
    {
        proof {
            assert(items.deep_view()[i as int] == items@[i as int]@);
            assert(item_within(items.deep_view()[i as int], 100000000));
        }
        let scaled: GraphicItem = match &items[i] {
            GraphicItem::Line(x, y, x2, y2, st) => GraphicItem::Line(
                scale_coord_i64(*x, sx_milli),
                scale_coord_i64(*y, sy_milli),
                scale_coord_i64(*x2, sx_milli),
                scale_coord_i64(*y2, sy_milli),
                scale_stroke_i64(*st, sw_milli),
            ),
            GraphicItem::Rect(x, y, w, h, st, f) => GraphicItem::Rect(
                scale_coord_i64(*x, sx_milli),
                scale_coord_i64(*y, sy_milli),
                scale_coord_i64(*w, sx_milli),
                scale_coord_i64(*h, sy_milli),
                scale_stroke_i64(*st, sw_milli),
                *f,
            ),
            GraphicItem::Ellipse(x, y, w, h, st, f) => GraphicItem::Ellipse(
                scale_coord_i64(*x, sx_milli),
                scale_coord_i64(*y, sy_milli),
                scale_coord_i64(*w, sx_milli),
                scale_coord_i64(*h, sy_milli),
                scale_stroke_i64(*st, sw_milli),
                *f,
            ),
            GraphicItem::Path(ops, st, f, c) => GraphicItem::Path(
                scale_path(ops, sx_milli, sy_milli),
                scale_stroke_i64(*st, sw_milli),
                *f,
                *c,
            ),
        };
        push_item(&mut r, scaled);
        proof {
            assert(r.deep_view() =~= all.take(i as int + 1));
        }
        i += 1;
    }
    proof {
        assert(all.take(items.deep_view().len() as int) =~= all);
    }
    r
}

/// The corner points one path operation contributes to a bounding box.
pub open spec fn seg_pts(op: PathSegmentView) -> Seq<(int, int)> {
    match op {
        PathSegmentView::M(x, y) => seq![(x, y)],
        PathSegmentView::L(x, y) => seq![(x, y)],
        PathSegmentView::Q(x1, y1, x, y) => seq![(x1, y1), (x, y)],
        PathSegmentView::C(x1, y1, x2, y2, x, y) => seq![(x1, y1), (x2, y2), (x, y)],
        PathSegmentView::Z => Seq::empty(),
    }
}

/// The points of the first `k` operations of an outline.
pub open spec fn ops_pts(ops: Seq<PathSegmentView>, k: int) -> Seq<(int, int)>
    decreases k,
{
    if k <= 0 {
        Seq::empty()
    } else {
        ops_pts(ops, k - 1) + seg_pts(ops[k - 1])
    }
}

/// The points one primitive contributes to a bounding box: line ends,
/// rectangle and ellipse corners, and every path point including the
/// control points.
pub open spec fn item_pts(it: GraphicItemView) -> Seq<(int, int)> {
    match it {
        GraphicItemView::Line(x, y, x2, y2, _) => seq![(x, y), (x2, y2)],
        GraphicItemView::Rect(x, y, w, h, _, _) => seq![(x, y), (x + w, y + h)],
        GraphicItemView::Ellipse(x, y, w, h, _, _) => seq![(x, y), (x + w, y + h)],
        GraphicItemView::Path(ops, _, _, _) => ops_pts(ops, ops.len() as int),
    }
}

/// The points of the first `k` primitives.
pub open spec fn items_pts(s: Seq<GraphicItemView>, k: int) -> Seq<(int, int)>
    decreases k,
{
    if k <= 0 {
        Seq::empty()
    } else {
        items_pts(s, k - 1) + item_pts(s[k - 1])
    }
}

/// A running bounding box widened by one point.
pub open spec fn bb_step(st: Option<(int, int, int, int)>, q: (int, int)) -> Option<
    (int, int, int, int),
> {
    match st {
        None => Some((q.0, q.1, q.0, q.1)),
        Some(b) => Some(
            (
                if q.0 < b.0 { q.0 } else { b.0 },
                if q.1 < b.1 { q.1 } else { b.1 },
                if q.0 > b.2 { q.0 } else { b.2 },
                if q.1 > b.3 { q.1 } else { b.3 },
            ),
        ),
    }
}

/// A running bounding box widened by the first `k` of a point list.
pub open spec fn bb_fold(
    st: Option<(int, int, int, int)>,
    pts: Seq<(int, int)>,
    k: int,
) -> Option<(int, int, int, int)>
    decreases k,
{
    if k <= 0 {
        st
    } else {
        bb_step(bb_fold(st, pts, k - 1), pts[k - 1])
    }
}

/// Folding a concatenation folds the parts in turn.
proof fn lemma_bb_fold_concat(
    st: Option<(int, int, int, int)>,
    a: Seq<(int, int)>,
    b: Seq<(int, int)>,
)
    ensures
        bb_fold(st, a + b, (a + b).len() as int) == bb_fold(
            bb_fold(st, a, a.len() as int),
            b,
            b.len() as int,
        ),
    decreases b.len(),
{
    if b.len() == 0 {
        assert(a + b =~= a);
    } else {
        let ab = a + b;
        let n = ab.len() as int;
        let fa = bb_fold(st, a, a.len() as int);
        lemma_bb_fold_concat(st, a, b.drop_last());
        assert(a + b.drop_last() =~= ab.take(n - 1));
        lemma_bb_fold_take(st, ab, n - 1);
        assert(bb_fold(st, ab, n - 1) == bb_fold(st, a + b.drop_last(), n - 1));
        assert((a + b.drop_last()).len() == n - 1);
        lemma_bb_fold_take(fa, b, b.len() - 1);
        assert(b.take(b.len() - 1) =~= b.drop_last());
        assert(bb_fold(fa, b, b.len() - 1) == bb_fold(fa, b.drop_last(), b.len() - 1));
        assert(bb_fold(st, ab, n - 1) == bb_fold(fa, b, b.len() - 1));
        assert(ab[n - 1] == b[b.len() - 1]);
        assert(bb_fold(st, ab, n) == bb_step(bb_fold(st, ab, n - 1), ab[n - 1]));
        assert(bb_fold(fa, b, b.len() as int) == bb_step(
            bb_fold(fa, b, b.len() - 1),
            b[b.len() - 1],
        ));
    }
}

/// A fold over the first `k` sees only the first `k` points.
proof fn lemma_bb_fold_take(st: Option<(int, int, int, int)>, pts: Seq<(int, int)>, k: int)
    requires
        0 <= k <= pts.len(),
    ensures
        bb_fold(st, pts, k) == bb_fold(st, pts.take(k), k),
    decreases k,
{
    if k > 0 {
        lemma_bb_fold_take(st, pts, k - 1);
        assert(pts.take(k).take(k - 1) =~= pts.take(k - 1));
        lemma_bb_fold_take(st, pts.take(k), k - 1);
        assert(pts.take(k)[k - 1] == pts[k - 1]);
    }
}

/// The bounding box of a primitive list: the least and greatest x and y
/// over every contributed point, or nothing for a list without points.
pub open spec fn bbox_view(s: Seq<GraphicItemView>) -> Option<(int, int, int, int)> {
    bb_fold(None, items_pts(s, s.len() as int), items_pts(s, s.len() as int).len() as int)
}

/// The mathematical value of a running machine bounding box.
pub open spec fn obb(st: Option<(i64, i64, i64, i64)>) -> Option<(int, int, int, int)> {
    match st {
        None => None,
        Some(b) => Some((b.0 as int, b.1 as int, b.2 as int, b.3 as int)),
    }
}

/// Widens a running bounding box by one point.
fn bb_merge(st: Option<(i64, i64, i64, i64)>, x: i64, y: i64) -> (r: Option<(i64, i64, i64, i64)>)
    ensures
        obb(r) == bb_step(obb(st), (x as int, y as int)),
{
    match st {
        None => Some((x, y, x, y)),
        Some(b) => Some(
            (
                if x < b.0 { x } else { b.0 },
                if y < b.1 { y } else { b.1 },
                if x > b.2 { x } else { b.2 },
                if y > b.3 { y } else { b.3 },
            ),
        ),
    }
}


/// A fold over at most three points, written out.
proof fn lemma_bb_fold_small(prev: Option<(int, int, int, int)>, w: Seq<(int, int)>)
    requires
        w.len() <= 3,
    ensures
        w.len() == 0 ==> bb_fold(prev, w, w.len() as int) == prev,
        w.len() == 1 ==> bb_fold(prev, w, w.len() as int) == bb_step(prev, w[0]),
        w.len() == 2 ==> bb_fold(prev, w, w.len() as int) == bb_step(bb_step(prev, w[0]), w[1]),
        w.len() == 3 ==> bb_fold(prev, w, w.len() as int) == bb_step(
            bb_step(bb_step(prev, w[0]), w[1]),
            w[2],
        ),
{
    if w.len() >= 1 {
        assert(bb_fold(prev, w, 1) == bb_step(bb_fold(prev, w, 0), w[0]));
    }
    if w.len() >= 2 {
        assert(bb_fold(prev, w, 2) == bb_step(bb_fold(prev, w, 1), w[1]));
    }
    if w.len() >= 3 {
        assert(bb_fold(prev, w, 3) == bb_step(bb_fold(prev, w, 2), w[2]));
    }
}

/// The bounding box of a primitive list, or nothing for a list that
/// contributes no points.
#[verifier::rlimit(100)]
#[verifier::spinoff_prover]
pub fn bbox(items: &Vec<GraphicItem>) -> (r: Option<(i64, i64, i64, i64)>)
    requires
        items_within(items.deep_view(), 1000000000000000000),
    ensures
        obb(r) == bbox_view(items.deep_view()),
{
    let ghost s = items.deep_view();
    let mut st: Option<(i64, i64, i64, i64)> = None;
    let mut i: usize = 0;
    while i < items.len()
        invariant
            i <= items.len(),
            s == items.deep_view(),
            items_within(s, 1000000000000000000),
            obb(st) == bb_fold(
                None,
                items_pts(s, i as int),
                items_pts(s, i as int).len() as int,
            ),
        decreases items.len() - i,
    {
        proof {
            assert(s[i as int] == items@[i as int]@);
            assert(item_within(s[i as int], 1000000000000000000));
            lemma_bb_fold_concat(None, items_pts(s, i as int), item_pts(s[i as int]));
        }
        match &items[i] {
            GraphicItem::Line(x, y, x2, y2, _) => {
                st = bb_merge(st, *x, *y);
                st = bb_merge(st, *x2, *y2);
                proof {
                    assert(item_pts(s[i as int]) == seq![
                        (*x as int, *y as int),
                        (*x2 as int, *y2 as int),
                    ]);
                    let prev = bb_fold(
                        None,
                        items_pts(s, i as int),
                        items_pts(s, i as int).len() as int,
                    );
                    lemma_bb_fold_small(prev, item_pts(s[i as int]));
                    assert(items_pts(s, i as int + 1) == items_pts(s, i as int) + item_pts(
                        s[i as int],
                    ));
                    assert(obb(st) == bb_fold(
                        None,
                        items_pts(s, i as int + 1),
                        items_pts(s, i as int + 1).len() as int,
                    ));
                }
            },
            GraphicItem::Rect(x, y, w, h, _, _) => {
                st = bb_merge(st, *x, *y);
                st = bb_merge(st, *x + *w, *y + *h);
                proof {
                    assert(item_pts(s[i as int]) == seq![
                        (*x as int, *y as int),
                        (*x + *w, *y + *h),
                    ]);
                    let prev = bb_fold(
                        None,
                        items_pts(s, i as int),
                        items_pts(s, i as int).len() as int,
                    );
                    lemma_bb_fold_small(prev, item_pts(s[i as int]));
                    assert(items_pts(s, i as int + 1) == items_pts(s, i as int) + item_pts(
                        s[i as int],
                    ));
                    assert(obb(st) == bb_fold(
                        None,
                        items_pts(s, i as int + 1),
                        items_pts(s, i as int + 1).len() as int,
                    ));
                }
            },
            GraphicItem::Ellipse(x, y, w, h, _, _) => {
                st = bb_merge(st, *x, *y);
                st = bb_merge(st, *x + *w, *y + *h);
                proof {
                    assert(item_pts(s[i as int]) == seq![
                        (*x as int, *y as int),
                        (*x + *w, *y + *h),
                    ]);
                    let prev = bb_fold(
                        None,
                        items_pts(s, i as int),
                        items_pts(s, i as int).len() as int,
                    );
                    lemma_bb_fold_small(prev, item_pts(s[i as int]));
                    assert(items_pts(s, i as int + 1) == items_pts(s, i as int) + item_pts(
                        s[i as int],
                    ));
                    assert(obb(st) == bb_fold(
                        None,
                        items_pts(s, i as int + 1),
                        items_pts(s, i as int + 1).len() as int,
                    ));
                }
            },
            GraphicItem::Path(ops, _, _, _) => {
                let ghost opsv = ops.deep_view();
                let ghost st_in = obb(st);
                let mut j: usize = 0;
                while j < ops.len()
                    invariant
                        j <= ops.len(),
                        opsv == ops.deep_view(),
                        outline_within(opsv, 1000000000000000000),
                        obb(st) == bb_fold(
                            st_in,
                            ops_pts(opsv, j as int),
                            ops_pts(opsv, j as int).len() as int,
                        ),
                    decreases ops.len() - j,
                {
                    proof {
                        assert(opsv[j as int] == ops@[j as int]@);
                        assert(seg_within(opsv[j as int], 1000000000000000000));
                        lemma_bb_fold_concat(st_in, ops_pts(opsv, j as int), seg_pts(opsv[j as int]));
                    }
                    match ops[j] {
                        PathSegment::M(x, y) => {
                            st = bb_merge(st, x, y);
                            proof {
                                assert(seg_pts(opsv[j as int]) == seq![(x as int, y as int)]);
                                let prev = bb_fold(
                                    st_in,
                                    ops_pts(opsv, j as int),
                                    ops_pts(opsv, j as int).len() as int,
                                );
                                lemma_bb_fold_small(prev, seg_pts(opsv[j as int]));
                                assert(ops_pts(opsv, j as int + 1) == ops_pts(opsv, j as int)
                                    + seg_pts(opsv[j as int]));
                                assert(obb(st) == bb_fold(
                                    st_in,
                                    ops_pts(opsv, j as int + 1),
                                    ops_pts(opsv, j as int + 1).len() as int,
                                ));
                            }
                        },
                        PathSegment::L(x, y) => {
                            st = bb_merge(st, x, y);
                            proof {
                                assert(seg_pts(opsv[j as int]) == seq![(x as int, y as int)]);
                                let prev = bb_fold(
                                    st_in,
                                    ops_pts(opsv, j as int),
                                    ops_pts(opsv, j as int).len() as int,
                                );
                                lemma_bb_fold_small(prev, seg_pts(opsv[j as int]));
                                assert(ops_pts(opsv, j as int + 1) == ops_pts(opsv, j as int)
                                    + seg_pts(opsv[j as int]));
                                assert(obb(st) == bb_fold(
                                    st_in,
                                    ops_pts(opsv, j as int + 1),
                                    ops_pts(opsv, j as int + 1).len() as int,
                                ));
                            }
                        },
                        PathSegment::Q(x1, y1, x, y) => {
                            st = bb_merge(st, x1, y1);
                            st = bb_merge(st, x, y);
                            proof {
                                assert(seg_pts(opsv[j as int]) == seq![
                                    (x1 as int, y1 as int),
                                    (x as int, y as int),
                                ]);
                                let prev = bb_fold(
                                    st_in,
                                    ops_pts(opsv, j as int),
                                    ops_pts(opsv, j as int).len() as int,
                                );
                                lemma_bb_fold_small(prev, seg_pts(opsv[j as int]));
                                assert(ops_pts(opsv, j as int + 1) == ops_pts(opsv, j as int)
                                    + seg_pts(opsv[j as int]));
                                assert(obb(st) == bb_fold(
                                    st_in,
                                    ops_pts(opsv, j as int + 1),
                                    ops_pts(opsv, j as int + 1).len() as int,
                                ));
                            }
                        },
                        PathSegment::C(x1, y1, x2, y2, x, y) => {
                            st = bb_merge(st, x1, y1);
                            st = bb_merge(st, x2, y2);
                            st = bb_merge(st, x, y);
                            proof {
                                assert(seg_pts(opsv[j as int]) == seq![
                                    (x1 as int, y1 as int),
                                    (x2 as int, y2 as int),
                                    (x as int, y as int),
                                ]);
                                let prev = bb_fold(
                                    st_in,
                                    ops_pts(opsv, j as int),
                                    ops_pts(opsv, j as int).len() as int,
                                );
                                lemma_bb_fold_small(prev, seg_pts(opsv[j as int]));
                                assert(ops_pts(opsv, j as int + 1) == ops_pts(opsv, j as int)
                                    + seg_pts(opsv[j as int]));
                                assert(obb(st) == bb_fold(
                                    st_in,
                                    ops_pts(opsv, j as int + 1),
                                    ops_pts(opsv, j as int + 1).len() as int,
                                ));
                            }
                        },
                        PathSegment::Z => {
                            proof {
                                assert(seg_pts(opsv[j as int]) =~= Seq::<(int, int)>::empty());
                                assert(ops_pts(opsv, j as int) + seg_pts(opsv[j as int])
                                    =~= ops_pts(opsv, j as int));
                                assert(ops_pts(opsv, j as int + 1) == ops_pts(opsv, j as int)
                                    + seg_pts(opsv[j as int]));
                                assert(obb(st) == bb_fold(
                                    st_in,
                                    ops_pts(opsv, j as int + 1),
                                    ops_pts(opsv, j as int + 1).len() as int,
                                ));
                            }
                        },
                    }
                    j += 1;
                }
                proof {
                    assert(item_pts(s[i as int]) == ops_pts(opsv, opsv.len() as int));
                    assert(items_pts(s, i as int + 1) == items_pts(s, i as int) + item_pts(
                        s[i as int],
                    ));
                    assert(obb(st) == bb_fold(
                        None,
                        items_pts(s, i as int + 1),
                        items_pts(s, i as int + 1).len() as int,
                    ));
                }
            },
        }
        i += 1;
    }
    proof {
        assert(items_pts(s, s.len() as int) == items_pts(s, items.len() as int));
    }
    st
}

} // verus!
