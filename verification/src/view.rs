//! The transform between image space and view space.
//!
//! A point of the image is shown at `offset + scale * point`. The scale is
//! either the largest that lets the whole image fit the viewport, or the
//! zoom factor; the offsets centre an image that is smaller than the
//! viewport and pin a larger one to the upper left corner.

use vstd::prelude::*;
use vstd::arithmetic::div_mod::{
    lemma_div_is_ordered,
    lemma_div_is_ordered_by_denominator,
    lemma_div_multiples_vanish,
    lemma_div_pos_is_pos,
    lemma_fundamental_div_mod,
};
use crate::editor::{Background, EditorModel, EditorState};
use crate::fixed::{floor_div, round_to_whole, round_whole, saturate, saturating, UNIT};
use crate::geometry::Point;

verus! {

/// The smallest scale that fitting to the window uses: a hundredth.
pub const MIN_FIT_SCALE: i64 = 10_000;

/// The smallest zoom factor: a twentieth.
pub const MIN_ZOOM: i64 = 50_000;

/// The smallest zoom factor that stepping reaches: a quarter.
pub const MIN_STEP_ZOOM: i64 = 250_000;

/// The largest zoom factor that stepping reaches: three.
pub const MAX_STEP_ZOOM: i64 = 3_000_000;

/// A dimension in pixels, counted as one where it is smaller than that.
pub open spec fn at_least_one(n: i32) -> int {
    vstd::math::max(n as int, 1)
}

/// The scale at which an image of `img_w` by `img_h` pixels just fits a
/// viewport of `vp_w` by `vp_h` pixels, but no less than `MIN_FIT_SCALE`.
pub open spec fn fit_scale(img_w: int, img_h: int, vp_w: int, vp_h: int) -> int {
    vstd::math::max(
        vstd::math::min(vp_w * UNIT / img_w, vp_h * UNIT / img_h),
        MIN_FIT_SCALE as int,
    )
}

/// The offset that centres `img` pixels shown at `scale` in a viewport of
/// `vp` pixels; never negative.
pub open spec fn centered(vp: int, img: int, scale: int) -> int {
    vstd::math::max((vp * UNIT - img * scale) / 2, 0)
}

/// Where the image coordinate `p` is shown along one axis.
pub open spec fn axis_to_view(p: int, offset: int, scale: int) -> int {
    offset + p * scale / (UNIT as int)
}

/// The image coordinate shown at the view coordinate `v` along one axis;
/// never negative.
pub open spec fn axis_to_image(v: int, offset: int, scale: int) -> int {
    vstd::math::max((v - offset) * UNIT / scale, 0)
}

/// The zoom factor one step in or out from `zoom`: a tenth more or a
/// tenth less, kept between a quarter and three.
pub open spec fn stepped_zoom(zoom: i64, zoom_in: bool) -> int {
    let stepped = if zoom_in {
        zoom * 11 / 10
    } else {
        zoom * 9 / 10
    };
    vstd::math::min(vstd::math::max(stepped, MIN_STEP_ZOOM as int), MAX_STEP_ZOOM as int)
}

/// The number of pixels that `pixels` pixels of the image take up at
/// `scale`, rounded to the nearest; at least one, and no more than an
/// `i32` counts.
pub open spec fn scaled_pixels(pixels: i32, scale: int) -> int {
    vstd::math::min(vstd::math::max(round_whole(pixels * scale), 1), i32::MAX as int)
}

impl EditorModel {
    /// The size in pixels at which the image is shown; none without an
    /// image.
    pub open spec fn content_size(self) -> Option<(int, int)> {
        match self.background {
            Some(bg) => Some(
                (scaled_pixels(bg.width, self.scale()), scaled_pixels(bg.height, self.scale())),
            ),
            None => None,
        }
    }

    /// The scale of the view: one without an image, else the fitting
    /// scale or the zoom factor.
    pub open spec fn scale(self) -> int {
        match self.background {
            None => UNIT as int,
            Some(bg) => if self.fit_to_window {
                fit_scale(
                    at_least_one(bg.width),
                    at_least_one(bg.height),
                    at_least_one(self.viewport_width),
                    at_least_one(self.viewport_height),
                )
            } else {
                vstd::math::max(self.zoom as int, MIN_ZOOM as int)
            },
        }
    }

    /// The horizontal offset of the image in the viewport.
    pub open spec fn offset_x(self) -> int {
        match self.background {
            None => 0,
            Some(bg) => centered(
                at_least_one(self.viewport_width),
                at_least_one(bg.width),
                self.scale(),
            ),
        }
    }

    /// The vertical offset of the image in the viewport.
    pub open spec fn offset_y(self) -> int {
        match self.background {
            None => 0,
            Some(bg) => centered(
                at_least_one(self.viewport_height),
                at_least_one(bg.height),
                self.scale(),
            ),
        }
    }

    /// Where the point `(x, y)` of the image is shown in the view.
    pub open spec fn to_view(self, x: i64, y: i64) -> Point {
        Point {
            x: saturate(axis_to_view(x as int, self.offset_x(), self.scale())),
            y: saturate(axis_to_view(y as int, self.offset_y(), self.scale())),
        }
    }

    /// The point of the image that is shown at `(x, y)` in the view. Only
    /// the lower bound is clamped: a view point to the right of or below
    /// the image maps to a point outside of it.
    pub open spec fn to_image(self, x: i64, y: i64) -> Point {
        Point {
            x: saturate(axis_to_image(x as int, self.offset_x(), self.scale())),
            y: saturate(axis_to_image(y as int, self.offset_y(), self.scale())),
        }
    }
}

/// The scale is positive and fits a scalar, and so do the offsets, which
/// are never negative.
pub proof fn lemma_transform_bounds(m: EditorModel)
    ensures
        MIN_FIT_SCALE <= m.scale() <= i64::MAX,
        0 <= m.offset_x() <= 0x8000_0000 * UNIT,
        0 <= m.offset_y() <= 0x8000_0000 * UNIT,
{
    match m.background {
        None => {},
        Some(bg) => {
            let iw = at_least_one(bg.width);
            let ih = at_least_one(bg.height);
            let vw = at_least_one(m.viewport_width);
            let vh = at_least_one(m.viewport_height);
            let s = m.scale();
            if m.fit_to_window {
                lemma_div_is_ordered_by_denominator(vw * UNIT, 1, iw);
                lemma_div_is_ordered_by_denominator(vh * UNIT, 1, ih);
            }
            assert(iw * s >= 0) by (nonlinear_arith)
                requires
                    iw >= 1,
                    s >= 1,
            ;
            assert(ih * s >= 0) by (nonlinear_arith)
                requires
                    ih >= 1,
                    s >= 1,
            ;
        },
    }
}

/// An image that is shown at least as large as the viewport along an
/// axis is not shifted along it: it is pinned to the upper left corner
/// instead of being moved out of the view.
pub proof fn lemma_oversized_is_pinned(vp: int, img: int, scale: int)
    requires
        img * scale >= vp * UNIT,
    ensures
        centered(vp, img, scale) == 0,
{
}

/// Without an image the transform is the identity.
pub proof fn lemma_identity_without_background(m: EditorModel)
    requires
        m.background is None,
    ensures
        m.scale() == UNIT,
        m.offset_x() == 0,
        m.offset_y() == 0,
{
}

/// An image fitted to a viewport of its own size is shown at scale one,
/// with no offset.
pub proof fn lemma_fit_same_size(m: EditorModel, bg: Background)
    requires
        m.background == Some(bg),
        m.fit_to_window,
        bg.width >= 1,
        bg.height >= 1,
        m.viewport_width == bg.width,
        m.viewport_height == bg.height,
    ensures
        m.scale() == UNIT,
        m.offset_x() == 0,
        m.offset_y() == 0,
{
    lemma_div_multiples_vanish(UNIT as int, bg.width as int);
    lemma_div_multiples_vanish(UNIT as int, bg.height as int);
    assert(bg.width * UNIT == UNIT * bg.width) by (nonlinear_arith);
    assert(bg.height * UNIT == UNIT * bg.height) by (nonlinear_arith);
}

/// Mapping an image coordinate to the view and back recovers it up to
/// the resolution of the scale: the result is never larger, and smaller
/// by at most `UNIT / scale + 1` units.
pub proof fn lemma_axis_round_trip(p: int, offset: int, scale: int)
    requires
        p >= 0,
        scale >= 1,
    ensures
        p - (UNIT as int / scale + 1) <= axis_to_image(axis_to_view(p, offset, scale), offset, scale) <= p,
{
    let u = UNIT as int;
    let q = p * scale / u;
    let back = q * u / scale;
    assert(p * scale >= 0) by (nonlinear_arith)
        requires
            p >= 0,
            scale >= 1,
    ;
    lemma_fundamental_div_mod(p * scale, u);
    assert(q >= 0) by {
        lemma_div_pos_is_pos(p * scale, u);
    }
    assert(q * u == u * q) by (nonlinear_arith);
    assert(q * u >= 0) by (nonlinear_arith)
        requires
            q >= 0,
            u >= 0,
    ;
    // q * u <= p * scale < q * u + u
    lemma_fundamental_div_mod(q * u, scale);
    let r = (q * u) % scale;
    // back * scale + r == q * u, with 0 <= r < scale
    assert(scale * back == back * scale) by (nonlinear_arith);
    assert(back <= p) by (nonlinear_arith)
        requires
            back * scale + r == q * u,
            0 <= r,
            q * u <= p * scale,
            scale >= 1,
    ;
    let k = u / scale;
    lemma_fundamental_div_mod(u, scale);
    let ru = u % scale;
    assert(scale * k == k * scale) by (nonlinear_arith);
    // u == k * scale + ru, 0 <= ru < scale
    assert(p - (k + 1) <= back) by (nonlinear_arith)
        requires
            back * scale + r == q * u,
            0 <= r < scale,
            p * scale < q * u + u,
            u == k * scale + ru,
            0 <= ru < scale,
            scale >= 1,
    ;
    assert(back >= 0) by {
        lemma_div_pos_is_pos(q * u, scale);
    }
}

/// A view coordinate that lies exactly at `offset + scale * p`, for an
/// image coordinate `p` that is not negative, maps back to `p` exactly.
pub proof fn lemma_axis_maps_back_exactly(v: int, p: int, offset: int, scale: int)
    requires
        p >= 0,
        scale >= 1,
        (v - offset) * UNIT == p * scale,
    ensures
        axis_to_image(v, offset, scale) == p,
{
    lemma_div_multiples_vanish(p, scale);
    assert(p * scale == scale * p) by (nonlinear_arith);
}

/// A view point that lies exactly where the transform puts a point of
/// the image with no negative coordinate maps back to that point, with
/// no error at all. Rounding enters a round trip only where the place in
/// the view is no whole number of scalar units.
pub proof fn lemma_exact_view_point_maps_back(m: EditorModel, x: i64, y: i64, p: Point)
    requires
        p.x >= 0,
        p.y >= 0,
        (x - m.offset_x()) * UNIT == p.x * m.scale(),
        (y - m.offset_y()) * UNIT == p.y * m.scale(),
    ensures
        m.to_image(x, y) == p,
{
    lemma_transform_bounds(m);
    lemma_axis_maps_back_exactly(x as int, p.x as int, m.offset_x(), m.scale());
    lemma_axis_maps_back_exactly(y as int, p.y as int, m.offset_y(), m.scale());
}

/// A point of the image with no negative coordinate, shown in the view
/// and mapped back, is recovered up to the resolution of the scale: no
/// coordinate comes back larger, or smaller by more than
/// `UNIT / scale + 1` units. This holds for every point whose place in
/// the view is within the range of a scalar.
pub proof fn lemma_view_round_trip(m: EditorModel, p: Point)
    requires
        p.x >= 0,
        p.y >= 0,
        axis_to_view(p.x as int, m.offset_x(), m.scale()) <= i64::MAX,
        axis_to_view(p.y as int, m.offset_y(), m.scale()) <= i64::MAX,
    ensures
        ({
            let shown = m.to_view(p.x, p.y);
            let back = m.to_image(shown.x, shown.y);
            let slack = UNIT as int / m.scale() + 1;
            &&& p.x - slack <= back.x <= p.x
            &&& p.y - slack <= back.y <= p.y
        }),
{
    lemma_transform_bounds(m);
    let s = m.scale();
    lemma_axis_round_trip(p.x as int, m.offset_x(), s);
    lemma_axis_round_trip(p.y as int, m.offset_y(), s);
    assert(p.x * s >= 0) by (nonlinear_arith)
        requires
            p.x >= 0,
            s >= 1,
    ;
    assert(p.y * s >= 0) by (nonlinear_arith)
        requires
            p.y >= 0,
            s >= 1,
    ;
    lemma_div_pos_is_pos(p.x * s, UNIT as int);
    lemma_div_pos_is_pos(p.y * s, UNIT as int);
    lemma_div_pos_is_pos(UNIT as int, s);
}

/// An `i32` dimension as a wide integer, counted as one where it is
/// smaller than that.
fn dimension(n: i32) -> (r: i128)
    ensures
        r == at_least_one(n),
{
    if n < 1 {
        1
    } else {
        n as i128
    }
}

/// Computes the centring offset along one axis.
fn center(vp: i128, img: i128, scale: i64) -> (r: i64)
    requires
        1 <= vp <= i32::MAX,
        1 <= img <= i32::MAX,
        scale >= 1,
    ensures
        r == centered(vp as int, img as int, scale as int),
{
    assert(0 <= img * scale <= 0x8000_0000 * 0x8000_0000_0000_0000) by (nonlinear_arith)
        requires
            1 <= img <= 0x8000_0000,
            1 <= scale <= 0x8000_0000_0000_0000,
    ;
    assert(0 <= vp * UNIT <= 0x8000_0000 * 1_000_000);
    let slack: i128 = vp * UNIT as i128 - img * scale as i128;
    if slack <= 0 {
        0
    } else {
        (slack / 2) as i64
    }
}

/// The transform of the view as `(scale, offset_x, offset_y)`: a point of
/// the image is shown at `offset + scale * point`.
pub fn view_transform(state: &EditorState) -> (t: (i64, i64, i64))
    ensures
        t.0 == state@.scale(),
        t.1 == state@.offset_x(),
        t.2 == state@.offset_y(),
        t.0 >= MIN_FIT_SCALE,
        t.1 >= 0,
        t.2 >= 0,
{
    proof {
        lemma_transform_bounds(state@);
    }
    match state.background {
        None => (UNIT, 0, 0),
        Some(bg) => {
            let img_w: i128 = dimension(bg.width);
            let img_h: i128 = dimension(bg.height);
            let vp_w: i128 = dimension(state.viewport_width);
            let vp_h: i128 = dimension(state.viewport_height);
            let scale: i64 = if state.fit_to_window {
                let by_width: i128 = vp_w * UNIT as i128 / img_w;
                let by_height: i128 = vp_h * UNIT as i128 / img_h;
                let fit: i128 = if by_width <= by_height {
                    by_width
                } else {
                    by_height
                };
                if fit < MIN_FIT_SCALE as i128 {
                    MIN_FIT_SCALE
                } else {
                    fit as i64
                }
            } else if state.zoom < MIN_ZOOM {
                MIN_ZOOM
            } else {
                state.zoom
            };
            let offset_x: i64 = center(vp_w, img_w, scale);
            let offset_y: i64 = center(vp_h, img_h, scale);
            (scale, offset_x, offset_y)
        },
    }
}

/// Counts the pixels that `pixels` pixels of the image take up at
/// `scale`.
fn scale_pixels(pixels: i32, scale: i64) -> (r: i32)
    requires
        scale >= 1,
    ensures
        r == scaled_pixels(pixels, scale as int),
        r >= 1,
{
    if pixels <= 0 {
        proof {
            assert(pixels * scale <= 0) by (nonlinear_arith)
                requires
                    pixels <= 0,
                    scale >= 1,
            ;
            if pixels * scale < 0 {
                lemma_div_pos_is_pos(-(pixels * scale) + 500_000, UNIT as int);
            }
        }
        return 1;
    }
    assert(0 < pixels * scale <= 0x7fff_ffff * 0x8000_0000_0000_0000) by (nonlinear_arith)
        requires
            0 < pixels <= 0x7fff_ffff,
            1 <= scale <= 0x8000_0000_0000_0000,
    ;
    let shown: i128 = pixels as i128 * scale as i128;
    let most: i128 = i32::MAX as i128 * UNIT as i128;
    if shown >= most {
        proof {
            lemma_div_is_ordered(most as int + 500_000, shown as int + 500_000, UNIT as int);
        }
        i32::MAX
    } else {
        proof {
            lemma_div_is_ordered(shown as int + 500_000, most as int + 500_000, UNIT as int);
            lemma_div_pos_is_pos(shown as int + 500_000, UNIT as int);
        }
        let whole: i64 = round_to_whole(shown as i64);
        if whole < 1 {
            1
        } else {
            whole as i32
        }
    }
}

/// The size in pixels at which the image is shown under the transform
/// of the view, each side rounded to the nearest pixel and at least one;
/// `None` without an image.
pub fn content_size(state: &EditorState) -> (r: Option<(i32, i32)>)
    ensures
        match r {
            Some(size) => state@.content_size() == Some((size.0 as int, size.1 as int)),
            None => state@.content_size() is None,
        },
{
    match state.background {
        Some(bg) => {
            let (scale, _offset_x, _offset_y): (i64, i64, i64) = view_transform(state);
            Some((scale_pixels(bg.width, scale), scale_pixels(bg.height, scale)))
        },
        None => None,
    }
}

impl EditorState {
    /// Zooms one step in or out: the zoom factor grows or shrinks by a
    /// tenth, within a quarter and three, and takes the place of fitting
    /// the image to the window.
    pub fn step_zoom(&mut self, zoom_in: bool)
        ensures
            final(self)@ == (EditorModel {
                zoom: stepped_zoom(old(self).zoom, zoom_in) as i64,
                fit_to_window: false,
                ..old(self)@
            }),
            MIN_STEP_ZOOM <= final(self).zoom <= MAX_STEP_ZOOM,
            old(self)@.wf() ==> final(self)@.wf(),
    {
        let factor: i128 = if zoom_in {
            11
        } else {
            9
        };
        let stepped: i128 = floor_div(self.zoom as i128 * factor, 10);
        let zoom: i64 = if stepped < MIN_STEP_ZOOM as i128 {
            MIN_STEP_ZOOM
        } else if stepped > MAX_STEP_ZOOM as i128 {
            MAX_STEP_ZOOM
        } else {
            stepped as i64
        };
        self.fit_to_window = false;
        self.zoom = zoom;
    }
}

/// Maps one image coordinate to the view.
fn coordinate_to_view(p: i64, offset: i64, scale: i64) -> (r: i64)
    requires
        scale >= 1,
    ensures
        r == saturate(axis_to_view(p as int, offset as int, scale as int)),
{
    assert(-0x4000_0000_0000_0000_0000_0000_0000_0000 <= p * scale
        <= 0x4000_0000_0000_0000_0000_0000_0000_0000) by (nonlinear_arith)
        requires
            -0x8000_0000_0000_0000 <= p <= 0x8000_0000_0000_0000,
            1 <= scale <= 0x8000_0000_0000_0000,
    ;
    let scaled: i128 = floor_div(p as i128 * scale as i128, UNIT as i128);
    proof {
        lemma_div_is_ordered(
            -0x4000_0000_0000_0000_0000_0000_0000_0000,
            p * scale,
            UNIT as int,
        );
        lemma_div_is_ordered(
            p * scale,
            0x4000_0000_0000_0000_0000_0000_0000_0000,
            UNIT as int,
        );
    }
    saturating(offset as i128 + scaled)
}

/// Where the point `(x, y)` of the image is shown in the view.
pub fn map_to_view(state: &EditorState, x: i64, y: i64) -> (p: Point)
    ensures
        p == state@.to_view(x, y),
{
    let (scale, offset_x, offset_y): (i64, i64, i64) = view_transform(state);
    Point {
        x: coordinate_to_view(x, offset_x, scale),
        y: coordinate_to_view(y, offset_y, scale),
    }
}

/// Maps one view coordinate back to the image.
fn coordinate_to_image(v: i64, offset: i64, scale: i64) -> (r: i64)
    requires
        scale >= 1,
    ensures
        r == saturate(axis_to_image(v as int, offset as int, scale as int)),
{
    if v <= offset {
        proof {
            let d = v - offset;
            assert(d * UNIT <= 0) by (nonlinear_arith)
                requires
                    d <= 0,
            ;
            lemma_fundamental_div_mod(d * UNIT, scale as int);
            let q = (d * UNIT) / (scale as int);
            let r = (d * UNIT) % (scale as int);
            assert(q <= 0) by (nonlinear_arith)
                requires
                    scale * q + r == d * UNIT,
                    d * UNIT <= 0,
                    0 <= r,
                    scale >= 1,
            ;
        }
        0
    } else {
        let d: i128 = v as i128 - offset as i128;
        proof {
            assert(d * UNIT >= 0) by (nonlinear_arith)
                requires
                    d >= 0,
            ;
            lemma_div_pos_is_pos(d * UNIT, scale as int);
        }
        saturating(d * UNIT as i128 / scale as i128)
    }
}

/// The point of the image that is shown at `(x, y)` in the view. Each
/// coordinate is at least zero, but not bounded by the size of the
/// image: whoever uses the point clamps it as needed.
pub fn map_to_image(state: &EditorState, x: i64, y: i64) -> (p: Point)
    ensures
        p == state@.to_image(x, y),
        p.x >= 0,
        p.y >= 0,
{
    let (scale, offset_x, offset_y): (i64, i64, i64) = view_transform(state);
    Point {
        x: coordinate_to_image(x, offset_x, scale),
        y: coordinate_to_image(y, offset_y, scale),
    }
}

} // verus!
