use vstd::prelude::*;

verus! {

/// A named color of the output backend.
#[derive(Clone, Copy, Debug, PartialEq, Eq, Structural)]
pub enum Color {
    Black,
    White,
    Red,
    Blue,
    Dodgerblue,
    Tomato,
    Orange,
    Purple,
    Lime,
    Gray,
    LightGray,
    Green,
}

/// Stroke style of a primitive: either none, or a width and a color.
#[derive(Clone, Copy, Debug, PartialEq, Eq, Structural)]
pub enum Stroke {
    NoStroke,
    Strokestyle(i64, Color),
}

/// The mathematical value of a stroke style.
pub enum StrokeView {
    NoStroke,
    Strokestyle(int, Color),
}

impl View for Stroke {
    type V = StrokeView;

    open spec fn view(&self) -> StrokeView {
        match *self {
            Stroke::NoStroke => StrokeView::NoStroke,
            Stroke::Strokestyle(w, c) => StrokeView::Strokestyle(w as int, c),
        }
    }
}

impl DeepView for Stroke {
    type V = StrokeView;

    open spec fn deep_view(&self) -> StrokeView {
        self.view()
    }
}

/// Fill style of a primitive.
#[derive(Clone, Copy, Debug, PartialEq, Eq, Structural)]
pub enum Fill {
    NoFill,
    Fillstyle(Color),
}

/// Whether a backend may memoize the geometry of a path.
#[derive(Clone, Copy, Debug, PartialEq, Eq, Structural)]
pub enum PathCacheInfo {
    Cacheable,
    NoCache,
}

/// One operation of a vector path: move, line, quadratic or cubic curve,
/// or close.
#[derive(Clone, Copy, Debug, PartialEq, Eq, Structural)]
pub enum PathSegment {
    M(i64, i64),
    L(i64, i64),
    Q(i64, i64, i64, i64),
    C(i64, i64, i64, i64, i64, i64),
    Z,
}

/// The mathematical value of a path operation.
pub enum PathSegmentView {
    M(int, int),
    L(int, int),
    Q(int, int, int, int),
    C(int, int, int, int, int, int),
    Z,
}

impl View for PathSegment {
    type V = PathSegmentView;

    open spec fn view(&self) -> PathSegmentView {
        match *self {
            PathSegment::M(x, y) => PathSegmentView::M(x as int, y as int),
            PathSegment::L(x, y) => PathSegmentView::L(x as int, y as int),
            PathSegment::Q(x1, y1, x, y) => PathSegmentView::Q(
                x1 as int,
                y1 as int,
                x as int,
                y as int,
            ),
            PathSegment::C(x1, y1, x2, y2, x, y) => PathSegmentView::C(
                x1 as int,
                y1 as int,
                x2 as int,
                y2 as int,
                x as int,
                y as int,
            ),
            PathSegment::Z => PathSegmentView::Z,
        }
    }
}

impl DeepView for PathSegment {
    type V = PathSegmentView;

    open spec fn deep_view(&self) -> PathSegmentView {
        self.view()
    }
}

/// One output primitive.  A render pass produces an ordered list of these;
/// the order is paint order, later entries on top.
#[derive(Clone, Debug, PartialEq, Eq)]
pub enum GraphicItem {
    Line(i64, i64, i64, i64, Stroke),
    Rect(i64, i64, i64, i64, Stroke, Fill),
    Ellipse(i64, i64, i64, i64, Stroke, Fill),
    Path(Vec<PathSegment>, Stroke, Fill, PathCacheInfo),
}

/// The mathematical value of an output primitive.
pub enum GraphicItemView {
    Line(int, int, int, int, StrokeView),
    Rect(int, int, int, int, StrokeView, Fill),
    Ellipse(int, int, int, int, StrokeView, Fill),
    Path(Seq<PathSegmentView>, StrokeView, Fill, PathCacheInfo),
}

impl View for GraphicItem {
    type V = GraphicItemView;

    open spec fn view(&self) -> GraphicItemView {
        match self {
            GraphicItem::Line(x, y, x2, y2, s) => GraphicItemView::Line(
                *x as int,
                *y as int,
                *x2 as int,
                *y2 as int,
                s@,
            ),
            GraphicItem::Rect(x, y, w, h, s, f) => GraphicItemView::Rect(
                *x as int,
                *y as int,
                *w as int,
                *h as int,
                s@,
                *f,
            ),
            GraphicItem::Ellipse(x, y, w, h, s, f) => GraphicItemView::Ellipse(
                *x as int,
                *y as int,
                *w as int,
                *h as int,
                s@,
                *f,
            ),
            GraphicItem::Path(ops, s, f, cache) => GraphicItemView::Path(
                ops.deep_view(),
                s@,
                *f,
                *cache,
            ),
        }
    }
}

impl DeepView for GraphicItem {
    type V = GraphicItemView;

    open spec fn deep_view(&self) -> GraphicItemView {
        self.view()
    }
}

/// Appends one element, stated over the deep views.
pub fn push_item<T: DeepView>(v: &mut Vec<T>, item: T)
    ensures
        final(v).deep_view() == old(v).deep_view().push(item.deep_view()),
{
    v.push(item);
    proof {
        assert(v.deep_view() =~= old(v).deep_view().push(item.deep_view()));
    }
}

/// Appends a whole list, stated over the deep views.
pub fn append_items<T: DeepView>(v: &mut Vec<T>, other: Vec<T>)
    ensures
        final(v).deep_view() == old(v).deep_view() + other.deep_view(),
{
    let ghost handed = other.deep_view();
    let mut other = other;
    v.append(&mut other);
    proof {
        assert(v.deep_view() =~= old(v).deep_view() + handed);
    }
}

/// An empty list, with its deep view settled.
pub fn no_items<T: DeepView>() -> (r: Vec<T>)
    ensures
        r.deep_view() == Seq::<T::V>::empty(),
{
    let v: Vec<T> = Vec::new();
    proof {
        assert(v.deep_view() =~= Seq::<T::V>::empty());
    }
    v
}

/// A list of one element, with its deep view settled.
pub fn one_item<T: DeepView>(item: T) -> (r: Vec<T>)
    ensures
        r.deep_view() == seq![item.deep_view()],
{
    let mut v: Vec<T> = Vec::new();
    proof {
        assert(v.deep_view() =~= Seq::<T::V>::empty());
    }
    push_item(&mut v, item);
    v
}

/// `a` occurs inside `b` in order, possibly with gaps.
pub open spec fn is_subsequence<T>(a: Seq<T>, b: Seq<T>) -> bool
    decreases b.len(),
{
    if a.len() == 0 {
        true
    } else if b.len() == 0 {
        false
    } else {
        ||| (a[0] == b[0] && is_subsequence(a.drop_first(), b.drop_first()))
        ||| is_subsequence(a, b.drop_first())
    }
}

/// Every sequence is a subsequence of itself.
pub proof fn lemma_subsequence_refl<T>(a: Seq<T>)
    ensures
        is_subsequence(a, a),
    decreases a.len(),
{
    if a.len() > 0 {
        lemma_subsequence_refl(a.drop_first());
    }
}

/// A subsequence survives extra elements in front of the longer side.
pub proof fn lemma_subsequence_prepend<T>(front: Seq<T>, a: Seq<T>, b: Seq<T>)
    requires
        is_subsequence(a, b),
    ensures
        is_subsequence(a, front + b),
    decreases front.len(),
{
    if a.len() == 0 {
    } else if front.len() == 0 {
        assert(front + b =~= b);
    } else {
        lemma_subsequence_prepend(front.drop_first(), a, b);
        assert((front + b).drop_first() =~= front.drop_first() + b);
        assert((front + b).len() > 0);
    }
}

/// Concatenation preserves the subsequence relation on both sides.
pub proof fn lemma_subsequence_concat<T>(a: Seq<T>, b: Seq<T>, c: Seq<T>, d: Seq<T>)
    requires
        is_subsequence(a, b),
        is_subsequence(c, d),
    ensures
        is_subsequence(a + c, b + d),
    decreases b.len(),
{
    if a.len() == 0 {
        assert(a + c =~= c);
        lemma_subsequence_prepend(b, c, d);
    } else {
        if a[0] == b[0] && is_subsequence(a.drop_first(), b.drop_first()) {
            lemma_subsequence_concat(a.drop_first(), b.drop_first(), c, d);
            assert((a + c).drop_first() =~= a.drop_first() + c);
            assert((b + d).drop_first() =~= b.drop_first() + d);
            assert((a + c)[0] == (b + d)[0]);
        } else {
            lemma_subsequence_concat(a, b.drop_first(), c, d);
            assert((b + d).drop_first() =~= b.drop_first() + d);
            assert((a + c).len() > 0 && (b + d).len() > 0);
        }
    }
}

} // verus!
