//! Frames: what is painted, in which order, under which transform.
//!
//! The library does not touch pixels. A frame is the list of paint
//! operations that make up the picture, in image space, together with
//! the transform under which they are to be painted. The caller owns the
//! surface and the background image and carries the operations out in
//! order.

use vstd::prelude::*;
use crate::annotation::{annotation_bounds, Annotation, AnnotationView, Rgba};
use crate::crop::{
    area_in_image,
    area_pixels,
    clamp_to_image,
    lemma_area_in_pixel_range,
    Area,
    PixelRegion,
};
use crate::editor::{Background, EditorModel, EditorState};
use crate::fixed::{
    floor_div,
    isqrt,
    round_to_whole,
    round_whole,
    sat_sub,
    saturate,
    saturating,
    sqrt_floor,
    UNIT,
};
use crate::geometry::{Point, Rect};
use crate::view::view_transform;

verus! {

/// One step of painting. Coordinates and widths are in image space; the
/// transform of the frame applies to all of them.
#[derive(Debug, PartialEq, Eq)]
pub enum PaintOp {
    /// The background image, its upper left corner at the origin.
    Image,
    /// A connected line through `points`, with round caps and joins.
    Polyline { points: Vec<Point>, color: Rgba, width: i64 },
    /// The outline of `area`.
    Outline { area: Area, color: Rgba, width: i64 },
    /// A filled triangle.
    Triangle { a: Point, b: Point, c: Point, color: Rgba },
    /// A string set at `size`, its baseline beginning at `pos`.
    Text { pos: Point, text: String, color: Rgba, size: i64 },
    /// The region `source` of the background image, resampled down to
    /// `grid_width` by `grid_height` pixels and up again to its own size,
    /// each time taking the nearest pixel, painted at the origin of `area`
    /// and clipped to it.
    Pixelate { area: Area, source: PixelRegion, grid_width: i32, grid_height: i32 },
}

/// The mathematical value of a [`PaintOp`].
pub enum PaintOpView {
    Image,
    Polyline { points: Seq<Point>, color: Rgba, width: i64 },
    Outline { area: Area, color: Rgba, width: i64 },
    Triangle { a: Point, b: Point, c: Point, color: Rgba },
    Text { pos: Point, text: Seq<char>, color: Rgba, size: i64 },
    Pixelate { area: Area, source: PixelRegion, grid_width: i32, grid_height: i32 },
}

impl View for PaintOp {
    type V = PaintOpView;

    open spec fn view(&self) -> PaintOpView {
        match *self {
            PaintOp::Image => PaintOpView::Image,
            PaintOp::Polyline { points, color, width } => PaintOpView::Polyline {
                points: points@,
                color,
                width,
            },
            PaintOp::Outline { area, color, width } => PaintOpView::Outline { area, color, width },
            PaintOp::Triangle { a, b, c, color } => PaintOpView::Triangle { a, b, c, color },
            PaintOp::Text { pos, text, color, size } => PaintOpView::Text {
                pos,
                text: text@,
                color,
                size,
            },
            PaintOp::Pixelate { area, source, grid_width, grid_height } => PaintOpView::Pixelate {
                area,
                source,
                grid_width,
                grid_height,
            },
        }
    }
}

/// A picture to paint: a surface of `width` by `height` pixels, on which
/// each operation is painted in order, a point `p` of image space going
/// to `offset + scale * p`.
#[derive(Debug, PartialEq, Eq)]
pub struct Frame {
    pub width: i32,
    pub height: i32,
    pub scale: i64,
    pub offset_x: i64,
    pub offset_y: i64,
    pub ops: Vec<PaintOp>,
}

/// The mathematical value of a [`Frame`].
pub struct FrameView {
    pub width: i32,
    pub height: i32,
    pub scale: i64,
    pub offset_x: i64,
    pub offset_y: i64,
    pub ops: Seq<PaintOpView>,
}

/// The views of a sequence of paint operations.
pub open spec fn op_views(ops: Seq<PaintOp>) -> Seq<PaintOpView> {
    ops.map_values(|op: PaintOp| op@)
}

impl View for Frame {
    type V = FrameView;

    open spec fn view(&self) -> FrameView {
        FrameView {
            width: self.width,
            height: self.height,
            scale: self.scale,
            offset_x: self.offset_x,
            offset_y: self.offset_y,
            ops: op_views(self.ops@),
        }
    }
}

/// The colour of the outline of the crop rectangle: white, half
/// transparent.
pub open spec fn crop_marker_color() -> Rgba {
    Rgba { red: 1_000_000, green: 1_000_000, blue: 1_000_000, alpha: 500_000 }
}

/// The colour of the frame around the selected annotation: a pale blue,
/// somewhat transparent.
pub open spec fn selection_marker_color() -> Rgba {
    Rgba { red: 800_000, green: 800_000, blue: 1_000_000, alpha: 600_000 }
}

/// The outline of the normalized `rect`.
pub open spec fn outline_of(rect: Rect, color: Rgba, width: i64) -> PaintOpView {
    PaintOpView::Outline {
        area: Area {
            x: rect.left() as i64,
            y: rect.top() as i64,
            w: rect.width() as i64,
            h: rect.height() as i64,
        },
        color,
        width,
    }
}

/// The length up to which a line is too short to have a direction: a
/// tenth of a pixel.
pub const MIN_ARROW_LENGTH: i64 = 100_000;

/// The length of an arrow head for a line of the given width: ten times
/// the width, and at least ten pixels.
pub open spec fn arrow_reach(width: i64) -> int {
    vstd::math::max(saturate(10 * width) as int, 10 * UNIT)
}

/// The width of an arrow head across for a line of the given width: six
/// times the width of the line, and at least six pixels.
pub open spec fn arrow_spread(width: i64) -> int {
    vstd::math::max(saturate(6 * width) as int, 6 * UNIT)
}

/// The arrow head at `end` of the line from `start`: a filled triangle
/// with its tip at `end`, its base `arrow_reach` back along the line and
/// `arrow_spread` across. A line no longer than a tenth of a pixel has no
/// direction, and no head; any longer line has one. The lengths are
/// compared by their squares, so nothing is rounded in the comparison.
/// The direction is the vector from `start` to `end` divided by its
/// length in whole units.
pub open spec fn arrow_head(start: Point, end: Point, width: i64, color: Rgba) -> Seq<
    PaintOpView,
> {
    let dx = saturate(end.x - start.x) as int;
    let dy = saturate(end.y - start.y) as int;
    if !has_direction(start, end) {
        Seq::empty()
    } else {
        let len = sqrt_floor(dx * dx + dy * dy);
        let reach = arrow_reach(width);
        let spread = arrow_spread(width);
        let base = Point {
            x: saturate(end.x - dx * reach / len),
            y: saturate(end.y - dy * reach / len),
        };
        let left = Point {
            x: saturate(base.x + (-dy * spread) / (2 * len)),
            y: saturate(base.y + (dx * spread) / (2 * len)),
        };
        let right = Point {
            x: saturate(base.x + (dy * spread) / (2 * len)),
            y: saturate(base.y + (-dx * spread) / (2 * len)),
        };
        seq![PaintOpView::Triangle { a: end, b: left, c: right, color }]
    }
}

/// The number of blocks along one side of a pixelated region: its
/// extent in pixels divided by the size of a block, rounded to the
/// nearest whole number, and at least one.
pub open spec fn grid_count(extent: i64, pixel_size: i32) -> int {
    vstd::math::max(round_whole(extent as int / pixel_size as int), 1)
}

/// The pixelation of `rect` on an image of the size of `bg`: the part of
/// the rectangle that lies in the image is resampled to a grid of coarse
/// blocks and back. A rectangle less than one pixel wide or high is not
/// painted.
pub open spec fn pixelation(rect: Rect, pixel_size: i32, bg: Background) -> Seq<PaintOpView> {
    match area_in_image(bg, rect) {
        None => Seq::empty(),
        Some(area) => seq![
            PaintOpView::Pixelate {
                area,
                source: area.pixels(),
                grid_width: grid_count(area.w, pixel_size) as i32,
                grid_height: grid_count(area.h, pixel_size) as i32,
            },
        ],
    }
}

/// The grid of a pixelated region has at least one block along each
/// side, and no more blocks than the side has pixels.
pub proof fn lemma_grid_count_bounds(extent: i64, pixel_size: i32)
    requires
        pixel_size >= 1,
        extent >= UNIT,
    ensures
        1 <= grid_count(extent, pixel_size) <= round_whole(extent as int),
{
    lemma_quotient_bounds(extent as int, pixel_size as int);
    let share = extent as int / pixel_size as int;
    vstd::arithmetic::div_mod::lemma_div_is_ordered(share + 500_000, extent + 500_000, UNIT as int);
    vstd::arithmetic::div_mod::lemma_div_is_ordered(UNIT + 500_000, extent + 500_000, UNIT as int);
}

/// Pixelation paints at most one region, which is the part of the
/// rectangle that lies in the image, neither larger nor smaller: what is
/// painted over has the size, in pixels, of what was sampled.
pub proof fn lemma_pixelation_keeps_size(rect: Rect, pixel_size: i32, bg: Background)
    requires
        pixel_size >= 1,
    ensures
        match area_in_image(bg, rect) {
            None => pixelation(rect, pixel_size, bg).len() == 0,
            Some(a) => {
                &&& pixelation(rect, pixel_size, bg).len() == 1
                &&& pixelation(rect, pixel_size, bg)[0] matches PaintOpView::Pixelate {
                    area,
                    source,
                    grid_width,
                    grid_height,
                }
                &&& area == a
                &&& source == a.pixels()
                &&& source.width == round_whole(a.w as int)
                &&& source.height == round_whole(a.h as int)
                &&& 1 <= grid_width <= source.width
                &&& 1 <= grid_height <= source.height
            },
        },
{
    match area_in_image(bg, rect) {
        None => {},
        Some(a) => {
            lemma_area_in_pixel_range(bg, rect);
            lemma_grid_count_bounds(a.w, pixel_size);
            lemma_grid_count_bounds(a.h, pixel_size);
            vstd::arithmetic::div_mod::lemma_div_is_ordered(
                a.w + 500_000,
                0x7fff_ffff * UNIT + 500_000,
                UNIT as int,
            );
            vstd::arithmetic::div_mod::lemma_div_is_ordered(
                a.h + 500_000,
                0x7fff_ffff * UNIT + 500_000,
                UNIT as int,
            );
        },
    }
}

impl AnnotationView {
    /// What painting the annotation consists of. A stroke needs two
    /// points to show; pixelation needs an image to sample.
    pub open spec fn paint_ops(self, bg: Option<Background>) -> Seq<PaintOpView> {
        match self {
            AnnotationView::Pen { points, color, width } => if points.len() < 2 {
                Seq::empty()
            } else {
                seq![PaintOpView::Polyline { points, color, width }]
            },
            AnnotationView::Rect { rect, color, width } => seq![outline_of(rect, color, width)],
            AnnotationView::Line { start, end, color, width, arrow } => {
                let shaft = seq![PaintOpView::Polyline { points: seq![start, end], color, width }];
                if arrow {
                    shaft + arrow_head(start, end, width, color)
                } else {
                    shaft
                }
            },
            AnnotationView::Text { pos, text, color, size } => seq![
                PaintOpView::Text { pos, text, color, size },
            ],
            AnnotationView::Blur { rect, pixel_size } => match bg {
                Some(bg) => pixelation(rect, pixel_size, bg),
                None => Seq::empty(),
            },
        }
    }
}

/// Whether the line from `start` to `end` is longer than a tenth of a
/// pixel.
pub open spec fn has_direction(start: Point, end: Point) -> bool {
    let dx = saturate(end.x - start.x) as int;
    let dy = saturate(end.y - start.y) as int;
    dx * dx + dy * dy > MIN_ARROW_LENGTH * MIN_ARROW_LENGTH
}

/// A line is painted as its shaft from `start` to `end` in its colour
/// and width, followed by one filled triangle with its tip at `end` in
/// the same colour exactly if it is an arrow and longer than a tenth of a
/// pixel. Without the arrow there is never a triangle.
pub proof fn lemma_line_recipe(
    start: Point,
    end: Point,
    color: Rgba,
    width: i64,
    arrow: bool,
    bg: Option<Background>,
)
    ensures
        ({
            let ops = (AnnotationView::Line { start, end, color, width, arrow }).paint_ops(bg);
            let head = arrow && has_direction(start, end);
            &&& ops.len() == if head {
                2int
            } else {
                1int
            }
            &&& ops[0] == PaintOpView::Polyline { points: seq![start, end], color, width }
            &&& head ==> (ops[1] matches PaintOpView::Triangle { a, color: fill, .. } && a == end
                && fill == color)
        }),
{
}

/// What painting a sequence of annotations consists of: each in turn,
/// the first one first.
pub open spec fn paint_all(annotations: Seq<AnnotationView>, bg: Option<Background>) -> Seq<
    PaintOpView,
>
    decreases annotations.len(),
{
    if annotations.len() == 0 {
        Seq::empty()
    } else {
        paint_all(annotations.drop_last(), bg) + annotations.last().paint_ops(bg)
    }
}

impl EditorModel {
    /// Painting the image, if there is one.
    pub open spec fn backdrop(self) -> Seq<PaintOpView> {
        if self.background is Some {
            seq![PaintOpView::Image]
        } else {
            Seq::empty()
        }
    }

    /// Painting the draft, if there is one.
    pub open spec fn draft_ops(self) -> Seq<PaintOpView> {
        match self.draft {
            Some(d) => d.paint_ops(self.background),
            None => Seq::empty(),
        }
    }

    /// The outline of the crop rectangle, if there is one.
    pub open spec fn crop_marker(self) -> Seq<PaintOpView> {
        match self.crop_rect {
            Some(rect) => seq![outline_of(rect, crop_marker_color(), 1_000_000)],
            None => Seq::empty(),
        }
    }

    /// The frame around the selected annotation, if one is selected and
    /// has a bounding box.
    pub open spec fn selection_marker(self) -> Seq<PaintOpView> {
        match self.selected {
            Some(i) => match self.annotations[i].bounds() {
                Some(b) => seq![outline_of(b, selection_marker_color(), 1_000_000)],
                None => Seq::empty(),
            },
            None => Seq::empty(),
        }
    }

    /// Everything that is painted, from back to front: the image, the
    /// committed annotations in their order, the draft, and on top the
    /// outline of the crop rectangle and the frame of the selection.
    pub open spec fn scene(self) -> Seq<PaintOpView> {
        self.backdrop() + paint_all(self.annotations, self.background) + self.draft_ops()
            + self.crop_marker() + self.selection_marker()
    }

    /// The frame shown on screen: the scene on the viewport, under the
    /// transform of the view.
    pub open spec fn frame(self) -> FrameView {
        FrameView {
            width: self.viewport_width,
            height: self.viewport_height,
            scale: self.scale() as i64,
            offset_x: self.offset_x() as i64,
            offset_y: self.offset_y() as i64,
            ops: self.scene(),
        }
    }

    /// The frame for export: the scene on a surface of the size of the
    /// image, at scale one and without offset, whatever the zoom and the
    /// viewport are. There is none without an image.
    pub open spec fn flat_frame(self) -> Option<FrameView> {
        match self.background {
            Some(bg) => Some(
                FrameView {
                    width: bg.width,
                    height: bg.height,
                    scale: UNIT,
                    offset_x: 0,
                    offset_y: 0,
                    ops: self.scene(),
                },
            ),
            None => None,
        }
    }
}

/// Appending an operation appends its view.
proof fn lemma_op_views_push(ops: Seq<PaintOp>, op: PaintOp)
    ensures
        op_views(ops.push(op)) == op_views(ops) + seq![op@],
{
}

/// The outline of the normalized `rect`, as an operation.
fn outline(rect: Rect, color: Rgba, width: i64) -> (op: PaintOp)
    ensures
        op@ == outline_of(rect, color, width),
{
    let (x, y, w, h): (i64, i64, i64, i64) = rect.normalized();
    PaintOp::Outline { area: Area { x, y, w, h }, color, width }
}

/// The larger of `factor` times `width` and `factor` pixels.
fn scaled_width(width: i64, factor: i64) -> (r: i64)
    requires
        1 <= factor <= 10,
    ensures
        r == vstd::math::max(saturate(factor * width) as int, factor * UNIT),
        factor * UNIT <= r,
{
    assert(-0x8_0000_0000_0000_0000 <= factor * width <= 0x8_0000_0000_0000_0000)
        by (nonlinear_arith)
        requires
            1 <= factor <= 10,
            -0x8000_0000_0000_0000 <= width < 0x8000_0000_0000_0000,
    ;
    let scaled: i64 = saturating(factor as i128 * width as i128);
    let least: i64 = factor * UNIT;
    if scaled < least {
        least
    } else {
        scaled
    }
}

/// Appends the arrow head at `end` of the line from `start`: a filled
/// triangle with its tip at `end`. Appends nothing for a line no longer
/// than a tenth of a pixel.
pub fn draw_arrow_head(ops: &mut Vec<PaintOp>, start: Point, end: Point, width: i64, color: Rgba)
    ensures
        op_views(final(ops)@) == op_views(old(ops)@) + arrow_head(start, end, width, color),
{
    let dx: i128 = sat_sub(end.x, start.x) as i128;
    let dy: i128 = sat_sub(end.y, start.y) as i128;
    proof {
        lemma_square_bounds(dx as int);
        lemma_square_bounds(dy as int);
    }
    let squares: u128 = (dx * dx) as u128 + (dy * dy) as u128;
    if squares <= 10_000_000_000 {
        return ;
    }
    let root: u64 = isqrt(squares);
    assert(root >= MIN_ARROW_LENGTH) by (nonlinear_arith)
        requires
            0 <= root,
            squares > 10_000_000_000,
            squares < (root + 1) * (root + 1),
    ;
    let len: i128 = root as i128;
    let reach: i128 = scaled_width(width, 10) as i128;
    let spread: i128 = scaled_width(width, 6) as i128;
    let across: i128 = 2 * len;
    proof {
        lemma_product_bounds(dx as int, reach as int);
        lemma_product_bounds(dy as int, reach as int);
        lemma_product_bounds(dx as int, spread as int);
        lemma_product_bounds(dy as int, spread as int);
        lemma_quotient_bounds(dx * reach, len as int);
        lemma_quotient_bounds(dy * reach, len as int);
        lemma_quotient_bounds(-(dy * spread), across as int);
        lemma_quotient_bounds(dx * spread, across as int);
        lemma_quotient_bounds(dy * spread, across as int);
        lemma_quotient_bounds(-(dx * spread), across as int);
    }
    let base: Point = Point {
        x: saturating(end.x as i128 - floor_div(dx * reach, len)),
        y: saturating(end.y as i128 - floor_div(dy * reach, len)),
    };
    let left: Point = Point {
        x: saturating(base.x as i128 + floor_div(-dy * spread, across)),
        y: saturating(base.y as i128 + floor_div(dx * spread, across)),
    };
    let right: Point = Point {
        x: saturating(base.x as i128 + floor_div(dy * spread, across)),
        y: saturating(base.y as i128 + floor_div(-dx * spread, across)),
    };
    let op: PaintOp = PaintOp::Triangle { a: end, b: left, c: right, color };
    proof {
        lemma_op_views_push(ops@, op);
    }
    ops.push(op);
}

/// The square of a scalar fits a wide integer with room for another.
proof fn lemma_square_bounds(a: int)
    by (nonlinear_arith)
    requires
        -0x8000_0000_0000_0000 <= a <= 0x8000_0000_0000_0000,
    ensures
        0 <= a * a <= 0x4000_0000_0000_0000_0000_0000_0000_0000,
{
}

/// The product of a scalar and a scalar that is not negative fits a wide
/// integer, and changes its sign with the first factor.
proof fn lemma_product_bounds(a: int, b: int)
    by (nonlinear_arith)
    requires
        -0x8000_0000_0000_0000 <= a <= 0x8000_0000_0000_0000,
        0 <= b <= 0x8000_0000_0000_0000,
    ensures
        -0x4000_0000_0000_0000_0000_0000_0000_0000 <= a * b
            <= 0x4000_0000_0000_0000_0000_0000_0000_0000,
        (-a) * b == -(a * b),
{
}

/// A quotient by a positive divisor is no larger in size than the
/// dividend.
proof fn lemma_quotient_bounds(a: int, b: int)
    requires
        b >= 1,
    ensures
        a >= 0 ==> 0 <= a / b <= a,
        a <= 0 ==> a <= a / b <= 0,
{
    vstd::arithmetic::div_mod::lemma_fundamental_div_mod(a, b);
    let q = a / b;
    let r = a % b;
    if a >= 0 {
        assert(0 <= q <= a) by (nonlinear_arith)
            requires
                a == b * q + r,
                0 <= r < b,
                b >= 1,
                a >= 0,
        ;
    } else {
        assert(a <= q <= 0) by (nonlinear_arith)
            requires
                a == b * q + r,
                0 <= r < b,
                b >= 1,
                a <= 0,
        ;
    }
}

/// Counts the blocks along one side of a pixelated region.
fn grid(extent: i64, pixel_size: i32) -> (r: i32)
    requires
        pixel_size >= 1,
        UNIT <= extent <= 0x7fff_ffff * UNIT,
    ensures
        r == grid_count(extent, pixel_size),
        r >= 1,
{
    proof {
        lemma_grid_count_bounds(extent, pixel_size);
        vstd::arithmetic::div_mod::lemma_div_is_ordered(
            extent + 500_000,
            0x7fff_ffff * UNIT + 500_000,
            UNIT as int,
        );
    }
    let blocks: i64 = round_to_whole(extent / pixel_size as i64);
    if blocks < 1 {
        1
    } else {
        blocks as i32
    }
}

/// Appends the pixelation of `rect`, sampled from a background image of
/// the size of `background`. Appends nothing for a rectangle less than
/// one pixel wide or high.
pub fn draw_pixelate(ops: &mut Vec<PaintOp>, rect: Rect, pixel_size: i32, background: Background)
    requires
        pixel_size >= 1,
    ensures
        op_views(final(ops)@) == op_views(old(ops)@) + pixelation(rect, pixel_size, background),
{
    match clamp_to_image(background, rect) {
        None => {},
        Some(area) => {
            proof {
                lemma_area_in_pixel_range(background, rect);
            }
            let op: PaintOp = PaintOp::Pixelate {
                area,
                source: area_pixels(area),
                grid_width: grid(area.w, pixel_size),
                grid_height: grid(area.h, pixel_size),
            };
            proof {
                lemma_op_views_push(ops@, op);
            }
            ops.push(op);
        },
    }
}

/// A copy of a vector of points.
fn copy_points(points: &Vec<Point>) -> (r: Vec<Point>)
    ensures
        r@ == points@,
{
    let mut copy: Vec<Point> = Vec::new();
    let mut i: usize = 0;
    while i < points.len()
        invariant
            i <= points.len(),
            copy@ == points@.take(i as int),
        decreases points.len() - i,
    {
        copy.push(points[i]);
        i += 1;
    }
    copy
}

/// Appends what painting `annotation` consists of. Pixelation samples
/// the image as it is now, so it follows a crop; without an image it is
/// not painted.
pub fn draw_annotation(
    ops: &mut Vec<PaintOp>,
    annotation: &Annotation,
    background: Option<Background>,
)
    requires
        annotation@.wf(),
    ensures
        op_views(final(ops)@) == op_views(old(ops)@) + annotation@.paint_ops(background),
{
    match annotation {
        Annotation::Pen { points, color, width } => {
            if points.len() < 2 {
                return ;
            }
            let op: PaintOp = PaintOp::Polyline {
                points: copy_points(points),
                color: *color,
                width: *width,
            };
            proof {
                lemma_op_views_push(ops@, op);
            }
            ops.push(op);
        },
        Annotation::Rect { rect, color, width } => {
            let op: PaintOp = outline(*rect, *color, *width);
            proof {
                lemma_op_views_push(ops@, op);
            }
            ops.push(op);
        },
        Annotation::Line { start, end, color, width, arrow } => {
            let mut ends: Vec<Point> = Vec::new();
            ends.push(*start);
            ends.push(*end);
            assert(ends@ == seq![*start, *end]);
            let op: PaintOp = PaintOp::Polyline { points: ends, color: *color, width: *width };
            proof {
                lemma_op_views_push(ops@, op);
            }
            ops.push(op);
            if *arrow {
                draw_arrow_head(ops, *start, *end, *width, *color);
            }
        },
        Annotation::Text { pos, text, color, size } => {
            let op: PaintOp = PaintOp::Text {
                pos: *pos,
                text: text.clone(),
                color: *color,
                size: *size,
            };
            proof {
                lemma_op_views_push(ops@, op);
            }
            ops.push(op);
        },
        Annotation::Blur { rect, pixel_size } => {
            match background {
                Some(bg) => {
                    draw_pixelate(ops, *rect, *pixel_size, bg);
                },
                None => {},
            }
        },
    }
}

/// Collects the scene of `state`: the image, the annotations in their
/// order, the draft, the outline of the crop rectangle, the frame of the
/// selection.
fn scene(state: &EditorState) -> (ops: Vec<PaintOp>)
    requires
        state@.wf(),
    ensures
        op_views(ops@) == state@.scene(),
{
    let mut ops: Vec<PaintOp> = Vec::new();
    if state.background.is_some() {
        proof {
            lemma_op_views_push(ops@, PaintOp::Image);
        }
        ops.push(PaintOp::Image);
    }
    let ghost all = state@.annotations;
    let mut i: usize = 0;
    while i < state.annotations.len()
        invariant
            i <= state.annotations.len(),
            all == state@.annotations,
            state@.wf(),
            op_views(ops@) == state@.backdrop() + paint_all(all.take(i as int), state.background),
        decreases state.annotations.len() - i,
    {
        assert(all.take(i + 1).drop_last() == all.take(i as int));
        assert(all[i as int].wf());
        draw_annotation(&mut ops, &state.annotations[i], state.background);
        i += 1;
    }
    assert(all.take(all.len() as int) == all);
    match &state.draft {
        Some(draft) => {
            draw_annotation(&mut ops, draft, state.background);
        },
        None => {},
    }
    assert(op_views(ops@) == state@.backdrop() + paint_all(all, state.background)
        + state@.draft_ops());
    match state.crop_rect {
        Some(rect) => {
            let op: PaintOp = outline(
                rect,
                Rgba { red: 1_000_000, green: 1_000_000, blue: 1_000_000, alpha: 500_000 },
                UNIT,
            );
            proof {
                lemma_op_views_push(ops@, op);
            }
            ops.push(op);
        },
        None => {},
    }
    assert(op_views(ops@) == state@.backdrop() + paint_all(all, state.background)
        + state@.draft_ops() + state@.crop_marker());
    match state.selected {
        Some(index) => {
            match annotation_bounds(&state.annotations[index]) {
                Some(bounds) => {
                    let op: PaintOp = outline(
                        bounds,
                        Rgba { red: 800_000, green: 800_000, blue: 1_000_000, alpha: 600_000 },
                        UNIT,
                    );
                    proof {
                        lemma_op_views_push(ops@, op);
                    }
                    ops.push(op);
                },
                None => {},
            }
        },
        None => {},
    }
    ops
}

/// The frame to show on screen: the scene on the viewport, under the
/// transform of the view. The image is painted first, then the
/// annotations in the order in which they were committed, then the
/// draft, then the outline of the crop rectangle and the frame of the
/// selection.
pub fn draw(state: &EditorState) -> (frame: Frame)
    requires
        state@.wf(),
    ensures
        frame@ == state@.frame(),
{
    let (scale, offset_x, offset_y): (i64, i64, i64) = view_transform(state);
    Frame {
        width: state.viewport_width,
        height: state.viewport_height,
        scale,
        offset_x,
        offset_y,
        ops: scene(state),
    }
}

/// The frame to export: the same scene on a surface of the size of the
/// image, at scale one and without offset, so that the result does not
/// depend on the zoom or the viewport. There is none without an image.
pub fn render_to_pixbuf(state: &EditorState) -> (r: Option<Frame>)
    requires
        state@.wf(),
    ensures
        match r {
            Some(frame) => state@.flat_frame() == Some(frame@),
            None => state@.flat_frame() is None,
        },
{
    match state.background {
        Some(bg) => Some(
            Frame {
                width: bg.width,
                height: bg.height,
                scale: UNIT,
                offset_x: 0,
                offset_y: 0,
                ops: scene(state),
            },
        ),
        None => None,
    }
}

} // verus!
