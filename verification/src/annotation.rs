//! The annotation model: the closed set of markup kinds, their bounding
//! boxes, translation and hit-testing.

use vstd::prelude::*;
use crate::fixed::{floor_div, max_of, min_of, sat_sub, saturate, saturating};
use crate::geometry::{Point, Rect};

verus! {

/// A colour. Each channel is a fixed-point fraction: `UNIT` is full
/// intensity (or full opacity, for `alpha`).
#[derive(Clone, Copy, Debug, PartialEq, Eq, Structural)]
pub struct Rgba {
    pub red: u32,
    pub green: u32,
    pub blue: u32,
    pub alpha: u32,
}

/// One piece of markup. All geometry is in image space.
#[derive(Debug, PartialEq, Eq)]
pub enum Annotation {
    /// A freehand stroke through `points`.
    Pen { points: Vec<Point>, color: Rgba, width: i64 },
    /// The outline of a rectangle.
    Rect { rect: Rect, color: Rgba, width: i64 },
    /// A straight line, with an arrow head at `end` if `arrow` is set.
    Line { start: Point, end: Point, color: Rgba, width: i64, arrow: bool },
    /// A string anchored at `pos`.
    Text { pos: Point, text: String, color: Rgba, size: i64 },
    /// A region shown pixelated in blocks of `pixel_size` pixels.
    Blur { rect: Rect, pixel_size: i32 },
}

/// The mathematical value of an [`Annotation`].
pub enum AnnotationView {
    Pen { points: Seq<Point>, color: Rgba, width: i64 },
    Rect { rect: Rect, color: Rgba, width: i64 },
    Line { start: Point, end: Point, color: Rgba, width: i64, arrow: bool },
    Text { pos: Point, text: Seq<char>, color: Rgba, size: i64 },
    Blur { rect: Rect, pixel_size: i32 },
}

impl View for Annotation {
    type V = AnnotationView;

    open spec fn view(&self) -> AnnotationView {
        match *self {
            Annotation::Pen { points, color, width } => AnnotationView::Pen {
                points: points@,
                color,
                width,
            },
            Annotation::Rect { rect, color, width } => AnnotationView::Rect { rect, color, width },
            Annotation::Line { start, end, color, width, arrow } => AnnotationView::Line {
                start,
                end,
                color,
                width,
                arrow,
            },
            Annotation::Text { pos, text, color, size } => AnnotationView::Text {
                pos,
                text: text@,
                color,
                size,
            },
            Annotation::Blur { rect, pixel_size } => AnnotationView::Blur { rect, pixel_size },
        }
    }
}

/// The smallest rectangle that holds `r` and the point `p`, for an `r`
/// whose first corner is its upper left one.
pub open spec fn grown_to(r: Rect, p: Point) -> Rect {
    Rect {
        x1: vstd::math::min(r.x1 as int, p.x as int) as i64,
        y1: vstd::math::min(r.y1 as int, p.y as int) as i64,
        x2: vstd::math::max(r.x2 as int, p.x as int) as i64,
        y2: vstd::math::max(r.y2 as int, p.y as int) as i64,
    }
}

/// The extent of a non-empty sequence of points: the smallest rectangle
/// that holds them all, its first corner the upper left one.
pub open spec fn extent(points: Seq<Point>) -> Rect
    recommends
        points.len() > 0,
    decreases points.len(),
{
    if points.len() <= 1 {
        Rect::at(points[0])
    } else {
        grown_to(extent(points.drop_last()), points.last())
    }
}

/// The extent holds every point, and each of its four sides touches one.
pub proof fn lemma_extent_is_tight(points: Seq<Point>)
    requires
        points.len() > 0,
    ensures
        forall|i: int|
            0 <= i < points.len() ==> extent(points).x1 <= (#[trigger] points[i]).x <= extent(
                points,
            ).x2 && extent(points).y1 <= points[i].y <= extent(points).y2,
        exists|i: int| 0 <= i < points.len() && (#[trigger] points[i]).x == extent(points).x1,
        exists|i: int| 0 <= i < points.len() && (#[trigger] points[i]).x == extent(points).x2,
        exists|i: int| 0 <= i < points.len() && (#[trigger] points[i]).y == extent(points).y1,
        exists|i: int| 0 <= i < points.len() && (#[trigger] points[i]).y == extent(points).y2,
    decreases points.len(),
{
    if points.len() <= 1 {
        assert(points[0].x == extent(points).x1);
    } else {
        let init = points.drop_last();
        let last = points.len() - 1;
        lemma_extent_is_tight(init);
        assert forall|i: int| 0 <= i < points.len() implies extent(points).x1 <= (
        #[trigger] points[i]).x <= extent(points).x2 && extent(points).y1 <= points[i].y
            <= extent(points).y2 by {
            if i < last {
                assert(points[i] == init[i]);
            }
        }
        let ax = choose|i: int| 0 <= i < init.len() && (#[trigger] init[i]).x == extent(init).x1;
        let bx = choose|i: int| 0 <= i < init.len() && (#[trigger] init[i]).x == extent(init).x2;
        let ay = choose|i: int| 0 <= i < init.len() && (#[trigger] init[i]).y == extent(init).y1;
        let by = choose|i: int| 0 <= i < init.len() && (#[trigger] init[i]).y == extent(init).y2;
        assert(points[ax] == init[ax] && points[bx] == init[bx]);
        assert(points[ay] == init[ay] && points[by] == init[by]);
        let wx1 = if points[last].x < extent(init).x1 { last } else { ax };
        let wx2 = if points[last].x > extent(init).x2 { last } else { bx };
        let wy1 = if points[last].y < extent(init).y1 { last } else { ay };
        let wy2 = if points[last].y > extent(init).y2 { last } else { by };
        assert(points[wx1].x == extent(points).x1);
        assert(points[wx2].x == extent(points).x2);
        assert(points[wy1].y == extent(points).y1);
        assert(points[wy2].y == extent(points).y2);
    }
}

/// How far a string of `len` bytes set at `size` reaches to the right of
/// its anchor: six tenths of the size for each byte.
pub open spec fn text_advance(size: i64, len: nat) -> int {
    size * len * 3 / 5
}

/// How far text set at `size` reaches below its anchor: a fifth of the
/// size.
pub open spec fn text_descent(size: i64) -> int {
    size as int / 5
}

/// The bounding box of a string of `len` bytes set at `size` and anchored
/// at `pos`: from one `size` above the anchor to the descent below it,
/// and from the anchor to the advance on its right.
pub open spec fn text_bounds(pos: Point, size: i64, len: nat) -> Rect {
    Rect {
        x1: pos.x,
        y1: saturate(pos.y - size),
        x2: saturate(pos.x + text_advance(size, len)),
        y2: saturate(pos.y + text_descent(size)),
    }
}

impl AnnotationView {
    /// A pixelated region needs blocks of at least one pixel.
    pub open spec fn wf(self) -> bool {
        self matches AnnotationView::Blur { pixel_size, .. } ==> pixel_size >= 1
    }

    /// The bounding box; a stroke without points has none.
    pub open spec fn bounds(self) -> Option<Rect> {
        match self {
            AnnotationView::Pen { points, .. } => if points.len() == 0 {
                None
            } else {
                Some(extent(points))
            },
            AnnotationView::Rect { rect, .. } => Some(rect),
            AnnotationView::Line { start, end, .. } => Some(
                Rect { x1: start.x, y1: start.y, x2: end.x, y2: end.y },
            ),
            AnnotationView::Text { pos, text, size, .. } => Some(
                text_bounds(pos, size, vstd::utf8::encode_utf8(text).len()),
            ),
            AnnotationView::Blur { rect, .. } => Some(rect),
        }
    }

    /// Whether `p` lies in the bounding box, borders included.
    pub open spec fn hit_by(self, p: Point) -> bool {
        self.bounds() matches Some(b) && b.contains(p)
    }

    /// The annotation with every piece of its geometry shifted by
    /// `(dx, dy)`, and nothing else changed.
    pub open spec fn moved(self, dx: i64, dy: i64) -> AnnotationView {
        match self {
            AnnotationView::Pen { points, color, width } => AnnotationView::Pen {
                points: points.map_values(|p: Point| p.translated(dx, dy)),
                color,
                width,
            },
            AnnotationView::Rect { rect, color, width } => AnnotationView::Rect {
                rect: rect.translated(dx, dy),
                color,
                width,
            },
            AnnotationView::Line { start, end, color, width, arrow } => AnnotationView::Line {
                start: start.translated(dx, dy),
                end: end.translated(dx, dy),
                color,
                width,
                arrow,
            },
            AnnotationView::Text { pos, text, color, size } => AnnotationView::Text {
                pos: pos.translated(dx, dy),
                text,
                color,
                size,
            },
            AnnotationView::Blur { rect, pixel_size } => AnnotationView::Blur {
                rect: rect.translated(dx, dy),
                pixel_size,
            },
        }
    }
}

/// Whether the bounding box of text, and the same box after a move by
/// `(dx, dy)`, lie within the range of a scalar, so that nothing in
/// them is clamped.
pub open spec fn text_stays_in_range(pos: Point, size: i64, len: nat, dx: i64, dy: i64) -> bool {
    let top = pos.y - size;
    let right = pos.x + text_advance(size, len);
    let bottom = pos.y + text_descent(size);
    &&& i64::MIN <= pos.x + dx <= i64::MAX
    &&& i64::MIN <= pos.y + dy <= i64::MAX
    &&& i64::MIN <= top <= i64::MAX
    &&& i64::MIN <= top + dy <= i64::MAX
    &&& i64::MIN <= right <= i64::MAX
    &&& i64::MIN <= right + dx <= i64::MAX
    &&& i64::MIN <= bottom <= i64::MAX
    &&& i64::MIN <= bottom + dy <= i64::MAX
}

/// The extent of moved points is the moved extent of the points.
pub proof fn lemma_extent_of_moved(points: Seq<Point>, dx: i64, dy: i64)
    requires
        points.len() > 0,
    ensures
        extent(points.map_values(|p: Point| p.translated(dx, dy))) == extent(points).translated(
            dx,
            dy,
        ),
    decreases points.len(),
{
    let shift = |p: Point| p.translated(dx, dy);
    let moved = points.map_values(shift);
    if points.len() > 1 {
        let init = points.drop_last();
        lemma_extent_of_moved(init, dx, dy);
        assert(moved.drop_last() == init.map_values(shift));
    }
}

/// Moving an annotation moves its bounding box along with it. For text
/// this holds as long as the box stays within the range of a scalar.
pub proof fn lemma_move_shifts_bounds(a: AnnotationView, dx: i64, dy: i64)
    requires
        a matches AnnotationView::Text { pos, text, size, .. } ==> text_stays_in_range(
            pos,
            size,
            vstd::utf8::encode_utf8(text).len(),
            dx,
            dy,
        ),
    ensures
        a.moved(dx, dy).bounds() == match a.bounds() {
            Some(b) => Some(b.translated(dx, dy)),
            None => None,
        },
{
    match a {
        AnnotationView::Pen { points, .. } => {
            if points.len() > 0 {
                lemma_extent_of_moved(points, dx, dy);
            }
        },
        _ => {},
    }
}

/// Moving an annotation keeps it well-formed.
pub proof fn lemma_moved_keeps_wf(a: AnnotationView, dx: i64, dy: i64)
    requires
        a.wf(),
    ensures
        a.moved(dx, dy).wf(),
{
}

/// The views of a sequence of annotations.
pub open spec fn views(annotations: Seq<Annotation>) -> Seq<AnnotationView> {
    annotations.map_values(|a: Annotation| a@)
}

/// An index that may be absent, as a mathematical integer.
pub open spec fn index_view(i: Option<usize>) -> Option<int> {
    match i {
        Some(i) => Some(i as int),
        None => None,
    }
}

/// The topmost annotation whose bounding box holds `p`: the last such in
/// the sequence, if there is any.
pub open spec fn topmost_hit(annotations: Seq<AnnotationView>, p: Point) -> Option<int>
    decreases annotations.len(),
{
    if annotations.len() == 0 {
        None
    } else if annotations.last().hit_by(p) {
        Some(annotations.len() - 1)
    } else {
        topmost_hit(annotations.drop_last(), p)
    }
}

/// What `topmost_hit` returns is an index of an annotation that `p` hits
/// and above which none is hit; it returns nothing only if none is hit.
pub proof fn lemma_topmost_hit(annotations: Seq<AnnotationView>, p: Point)
    ensures
        match topmost_hit(annotations, p) {
            Some(i) => {
                &&& 0 <= i < annotations.len()
                &&& annotations[i].hit_by(p)
                &&& forall|j: int| i < j < annotations.len() ==> !(#[trigger] annotations[j]).hit_by(p)
            },
            None => forall|j: int|
                0 <= j < annotations.len() ==> !(#[trigger] annotations[j]).hit_by(p),
        },
    decreases annotations.len(),
{
    if annotations.len() > 0 && !annotations.last().hit_by(p) {
        let init = annotations.drop_last();
        lemma_topmost_hit(init, p);
        match topmost_hit(init, p) {
            Some(i) => {
                assert forall|j: int| i < j < annotations.len() implies !(
                #[trigger] annotations[j]).hit_by(p) by {
                    if j < init.len() {
                        assert(init[j] == annotations[j]);
                    }
                }
            },
            None => {
                assert forall|j: int| 0 <= j < annotations.len() implies !(
                #[trigger] annotations[j]).hit_by(p) by {
                    if j < init.len() {
                        assert(init[j] == annotations[j]);
                    }
                }
            },
        }
    }
}

/// Whatever lies under the point, nothing drawn later than the annotation
/// that is picked lies under it too: an annotation that `p` hits is
/// picked itself or hidden by a later one.
pub proof fn lemma_later_annotation_wins(annotations: Seq<AnnotationView>, p: Point, i: int)
    requires
        0 <= i < annotations.len(),
        annotations[i].hit_by(p),
    ensures
        topmost_hit(annotations, p) matches Some(j) && i <= j < annotations.len(),
{
    lemma_topmost_hit(annotations, p);
}

impl Annotation {
    /// Tests whether the annotation is well-formed: a pixelated region
    /// has blocks of at least one pixel.
    pub fn is_well_formed(&self) -> (r: bool)
        ensures
            r == self@.wf(),
    {
        match self {
            Annotation::Blur { pixel_size, .. } => *pixel_size >= 1,
            _ => true,
        }
    }
}

impl Clone for Annotation {
    /// A copy with the same value.
    fn clone(&self) -> (r: Self)
        ensures
            r@ == self@,
    {
        match self {
            Annotation::Pen { points, color, width } => {
                let mut copy: Vec<Point> = Vec::new();
                let mut i: usize = 0;
                while i < points.len()
                    invariant
                        i <= points.len(),
                        copy@ == points@.take(i as int),
                    decreases points.len() - i,
                {
                    copy.push(points[i]);
                    i += 1;
                }
                assert(points@.take(points@.len() as int) == points@);
                Annotation::Pen { points: copy, color: *color, width: *width }
            },
            Annotation::Rect { rect, color, width } => Annotation::Rect {
                rect: *rect,
                color: *color,
                width: *width,
            },
            Annotation::Line { start, end, color, width, arrow } => Annotation::Line {
                start: *start,
                end: *end,
                color: *color,
                width: *width,
                arrow: *arrow,
            },
            Annotation::Text { pos, text, color, size } => Annotation::Text {
                pos: *pos,
                text: text.clone(),
                color: *color,
                size: *size,
            },
            Annotation::Blur { rect, pixel_size } => Annotation::Blur {
                rect: *rect,
                pixel_size: *pixel_size,
            },
        }
    }
}

/// The extent that grows `r` to include `p`.
fn grow(r: Rect, p: Point) -> (out: Rect)
    ensures
        out == grown_to(r, p),
{
    Rect {
        x1: min_of(r.x1, p.x),
        y1: min_of(r.y1, p.y),
        x2: max_of(r.x2, p.x),
        y2: max_of(r.y2, p.y),
    }
}

/// Computes the bounding box of text from the position of its anchor, its
/// size and its length in bytes.
pub fn text_box(pos: Point, size: i64, len: usize) -> (r: Rect)
    ensures
        r == text_bounds(pos, size, len as nat),
{
    assert(-0x8000_0000_0000_0000_0000_0000_0000_0000 < size * len
        < 0x8000_0000_0000_0000_0000_0000_0000_0000) by (nonlinear_arith)
        requires
            -0x8000_0000_0000_0000 <= size < 0x8000_0000_0000_0000,
            0 <= len < 0x1_0000_0000_0000_0000,
    ;
    let product: i128 = size as i128 * len as i128;
    let limit: i128 = 0x1_0000_0000_0000_0000_0000;
    let x2: i64 = if product > limit {
        assert(pos.x + text_advance(size, len as nat) > i64::MAX);
        i64::MAX
    } else if product < -limit {
        assert(pos.x + text_advance(size, len as nat) < i64::MIN);
        i64::MIN
    } else {
        saturating(pos.x as i128 + floor_div(product * 3, 5))
    };
    let descent: i128 = floor_div(size as i128, 5);
    Rect {
        x1: pos.x,
        y1: sat_sub(pos.y, size),
        x2,
        y2: saturating(pos.y as i128 + descent),
    }
}

/// The bounding box of an annotation; a stroke without points has none.
pub fn annotation_bounds(annotation: &Annotation) -> (r: Option<Rect>)
    ensures
        r == annotation@.bounds(),
{
    match annotation {
        Annotation::Pen { points, .. } => {
            if points.len() == 0 {
                return None;
            }
            let mut bounds: Rect = Rect::at_point(points[0]);
            let mut i: usize = 1;
            while i < points.len()
                invariant
                    1 <= i <= points.len(),
                    bounds == extent(points@.take(i as int)),
                decreases points.len() - i,
            {
                assert(points@.take(i + 1).drop_last() == points@.take(i as int));
                bounds = grow(bounds, points[i]);
                i += 1;
            }
            assert(points@.take(points@.len() as int) == points@);
            Some(bounds)
        },
        Annotation::Rect { rect, .. } => Some(*rect),
        Annotation::Line { start, end, .. } => Some(
            Rect { x1: start.x, y1: start.y, x2: end.x, y2: end.y },
        ),
        Annotation::Text { pos, text, size, .. } => Some(
            text_box(*pos, *size, text.as_str().as_bytes().len()),
        ),
        Annotation::Blur { rect, .. } => Some(*rect),
    }
}

/// Tests whether `point` lies in the bounding box of `annotation`.
pub fn hits(annotation: &Annotation, point: Point) -> (r: bool)
    ensures
        r == annotation@.hit_by(point),
{
    match annotation_bounds(annotation) {
        Some(bounds) => bounds.contains_point(point),
        None => false,
    }
}

/// Finds the topmost annotation under `point`: the one drawn last among
/// those whose bounding box holds the point. This tests boxes, not exact
/// shapes.
pub fn hit_test(annotations: &[Annotation], point: Point) -> (r: Option<usize>)
    ensures
        index_view(r) == topmost_hit(views(annotations@), point),
        r matches Some(i) ==> i < annotations@.len(),
{
    let ghost all = views(annotations@);
    let mut i: usize = annotations.len();
    assert(all.take(i as int) == all);
    while i > 0
        invariant
            i <= annotations@.len(),
            all == views(annotations@),
            topmost_hit(all, point) == topmost_hit(all.take(i as int), point),
        decreases i,
    {
        assert(all.take(i as int).drop_last() == all.take(i - 1));
        if hits(&annotations[i - 1], point) {
            return Some(i - 1);
        }
        i -= 1;
    }
    None
}

/// Shifts every piece of the annotation's geometry by `(dx, dy)`. This is
/// the one place where geometry changes, for dragging and for rebasing
/// after a crop alike.
pub fn move_annotation(annotation: &mut Annotation, dx: i64, dy: i64)
    ensures
        final(annotation)@ == old(annotation)@.moved(dx, dy),
{
    match annotation {
        Annotation::Pen { points, .. } => {
            let ghost before = points@;
            let mut i: usize = 0;
            while i < points.len()
                invariant
                    i <= points.len(),
                    points@.len() == before.len(),
                    forall|j: int| 0 <= j < i ==> points@[j] == before[j].translated(dx, dy),
                    forall|j: int| i <= j < before.len() ==> points@[j] == before[j],
                decreases points.len() - i,
            {
                let moved: Point = points[i].translate(dx, dy);
                points[i] = moved;
                i += 1;
            }
            assert(points@ == before.map_values(|p: Point| p.translated(dx, dy)));
        },
        Annotation::Rect { rect, .. } => {
            *rect = rect.translate(dx, dy);
        },
        Annotation::Line { start, end, .. } => {
            *start = start.translate(dx, dy);
            *end = end.translate(dx, dy);
        },
        Annotation::Text { pos, .. } => {
            *pos = pos.translate(dx, dy);
        },
        Annotation::Blur { rect, .. } => {
            *rect = rect.translate(dx, dy);
        },
    }
}

} // verus!
