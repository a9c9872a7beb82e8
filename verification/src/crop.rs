//! Clamping a rectangle to the image, and cropping the session to it.

use vstd::prelude::*;
use vstd::arithmetic::div_mod::{lemma_fundamental_div_mod, lemma_fundamental_div_mod_converse};
use crate::annotation::{move_annotation, AnnotationView};
use crate::editor::{Background, EditorModel, EditorState};
use crate::fixed::{nearest_pixel, round_whole, to_nearest_pixel, UNIT};
use crate::geometry::Rect;

verus! {

/// A rectangle by origin and size, in scalars.
#[derive(Clone, Copy, Debug, PartialEq, Eq, Structural)]
pub struct Area {
    pub x: i64,
    pub y: i64,
    pub w: i64,
    pub h: i64,
}

/// A rectangle of the image in whole pixels.
#[derive(Clone, Copy, Debug, PartialEq, Eq, Structural)]
pub struct PixelRegion {
    pub x: i32,
    pub y: i32,
    pub width: i32,
    pub height: i32,
}

/// An origin along one axis, moved into `0 ..= limit`.
pub open spec fn clamp_origin(v: int, limit: int) -> int {
    vstd::math::min(vstd::math::max(v, 0), limit)
}

/// A size along one axis, cut so that the rectangle ends within `limit`,
/// but not below one pixel.
pub open spec fn clamp_extent(size: int, origin: int, limit: int) -> int {
    vstd::math::max(vstd::math::min(size, limit - origin), UNIT as int)
}

/// The part of `rect` that lies in an image of the size of `bg`. A
/// rectangle less than one pixel wide or high has none.
pub open spec fn area_in_image(bg: Background, rect: Rect) -> Option<Area> {
    if rect.width() < UNIT || rect.height() < UNIT {
        None
    } else {
        let x = clamp_origin(rect.left(), bg.width * UNIT);
        let y = clamp_origin(rect.top(), bg.height * UNIT);
        Some(
            Area {
                x: x as i64,
                y: y as i64,
                w: clamp_extent(rect.width(), x, bg.width * UNIT) as i64,
                h: clamp_extent(rect.height(), y, bg.height * UNIT) as i64,
            },
        )
    }
}

impl PixelRegion {
    /// Whether the region is not empty and lies within an image of the
    /// size of `bg`.
    pub open spec fn within(self, bg: Background) -> bool {
        &&& 0 <= self.x
        &&& 0 <= self.y
        &&& 1 <= self.width
        &&& 1 <= self.height
        &&& self.x + self.width <= bg.width
        &&& self.y + self.height <= bg.height
    }

    /// Tests whether the region is not empty and lies within an image of
    /// the size of `bg`, so that it can be cut out of it.
    pub fn lies_within(self, bg: Background) -> (r: bool)
        ensures
            r == self.within(bg),
    {
        self.x >= 0 && self.y >= 0 && self.width >= 1 && self.height >= 1 && self.x as i64
            + self.width as i64 <= bg.width as i64 && self.y as i64 + self.height as i64
            <= bg.height as i64
    }
}

impl Area {
    /// The area in whole pixels, each number rounded to the nearest.
    pub open spec fn pixels(self) -> PixelRegion {
        PixelRegion {
            x: nearest_pixel(self.x as int),
            y: nearest_pixel(self.y as int),
            width: nearest_pixel(self.w as int),
            height: nearest_pixel(self.h as int),
        }
    }

    /// Whether origin and size are whole numbers of pixels.
    pub open spec fn on_whole_pixels(self) -> bool {
        &&& self.x % UNIT == 0
        &&& self.y % UNIT == 0
        &&& self.w % UNIT == 0
        &&& self.h % UNIT == 0
    }

    /// Whether the area could have come from clamping to an image: its
    /// numbers are those of pixels that an `i32` counts, so that rounding
    /// them to pixels clamps nothing.
    pub open spec fn in_pixel_range(self) -> bool {
        &&& -0x8000_0000 * UNIT <= self.x <= 0x7fff_ffff * UNIT
        &&& -0x8000_0000 * UNIT <= self.y <= 0x7fff_ffff * UNIT
        &&& UNIT <= self.w <= 0x7fff_ffff * UNIT
        &&& UNIT <= self.h <= 0x7fff_ffff * UNIT
    }
}

/// What clamping yields lies in the image: the origin is in it, the size
/// is at least one pixel, and the far side is within the image unless
/// that would leave less than one pixel.
pub proof fn lemma_area_in_image(bg: Background, rect: Rect)
    requires
        bg.width >= 0,
        bg.height >= 0,
    ensures
        area_in_image(bg, rect) matches Some(a) ==> {
            &&& 0 <= a.x <= bg.width * UNIT
            &&& 0 <= a.y <= bg.height * UNIT
            &&& a.w >= UNIT
            &&& a.h >= UNIT
            &&& a.x + UNIT <= bg.width * UNIT ==> a.x + a.w <= bg.width * UNIT
            &&& a.y + UNIT <= bg.height * UNIT ==> a.y + a.h <= bg.height * UNIT
            &&& a.w <= rect.width() || a.w == UNIT
            &&& a.h <= rect.height() || a.h == UNIT
        },
{
}

/// A whole number of pixels rounds to itself.
pub proof fn lemma_round_whole_pixels(k: int)
    ensures
        round_whole(k * UNIT) == k,
{
    if k >= 0 {
        assert(k * UNIT >= 0) by (nonlinear_arith)
            requires
                k >= 0,
        ;
        assert(k * UNIT + 500_000 == UNIT * k + 500_000) by (nonlinear_arith);
        lemma_fundamental_div_mod_converse(k * UNIT + 500_000, UNIT as int, k, 500_000);
    } else {
        assert(k * UNIT < 0) by (nonlinear_arith)
            requires
                k < 0,
        ;
        assert(-(k * UNIT) + 500_000 == UNIT * (-k) + 500_000) by (nonlinear_arith);
        lemma_fundamental_div_mod_converse(-(k * UNIT) + 500_000, UNIT as int, -k, 500_000);
    }
}

/// Clamping a rectangle that lies on whole pixels and begins within the
/// image yields a region of pixels that lies within the image. (With
/// fractions of pixels, rounding the origin and the size separately can
/// reach one pixel beyond it, and a rectangle that begins at the far
/// border is given one pixel there: whoever cuts the pixels tests the
/// region first.)
pub proof fn lemma_whole_pixel_region_fits(bg: Background, rect: Rect)
    requires
        area_in_image(bg, rect) matches Some(a) && a.on_whole_pixels() && a.x < bg.width * UNIT
            && a.y < bg.height * UNIT,
    ensures
        area_in_image(bg, rect).unwrap().pixels().within(bg),
{
    let a = area_in_image(bg, rect).unwrap();
    let u = UNIT as int;
    lemma_fundamental_div_mod(a.x as int, u);
    lemma_fundamental_div_mod(a.y as int, u);
    lemma_fundamental_div_mod(a.w as int, u);
    lemma_fundamental_div_mod(a.h as int, u);
    let (kx, ky, kw, kh) = (a.x as int / u, a.y as int / u, a.w as int / u, a.h as int / u);
    assert(kx * UNIT == u * kx && ky * UNIT == u * ky && kw * UNIT == u * kw && kh * UNIT == u
        * kh) by (nonlinear_arith)
        requires
            u == UNIT,
    ;
    lemma_round_whole_pixels(kx);
    lemma_round_whole_pixels(ky);
    lemma_round_whole_pixels(kw);
    lemma_round_whole_pixels(kh);
    lemma_area_in_pixel_range(bg, rect);
}

impl EditorModel {
    /// The session after a crop to `rect`. Without an image, or for a
    /// rectangle less than one pixel wide or high, nothing changes.
    /// Otherwise the clamped rectangle, in whole pixels, becomes the
    /// image; every annotation is moved so that it stays where it was on
    /// the image; and the draft, the crop rectangle and the selection
    /// are dropped. The redo stack is left alone.
    pub open spec fn cropped(self, rect: Rect) -> EditorModel {
        match self.crop_area(rect) {
            None => self,
            Some(a) => EditorModel {
                background: Some(
                    Background { width: a.pixels().width, height: a.pixels().height },
                ),
                annotations: self.annotations.map_values(
                    |v: AnnotationView| v.moved((-a.x) as i64, (-a.y) as i64),
                ),
                draft: None,
                crop_rect: None,
                selected: None,
                selected_original: None,
                ..self
            },
        }
    }

    /// The area that a crop to `rect` cuts out, if it succeeds.
    pub open spec fn crop_area(self, rect: Rect) -> Option<Area> {
        match self.background {
            None => None,
            Some(bg) => area_in_image(bg, rect),
        }
    }
}

/// A crop keeps the invariant of the session.
pub proof fn lemma_cropped_keeps_wf(m: EditorModel, rect: Rect)
    requires
        m.wf(),
    ensures
        m.cropped(rect).wf(),
{
}

/// A crop moves each annotation by the origin of the area it cuts out,
/// keeps their number and order, and makes the size of that area the size
/// of the image.
pub proof fn lemma_crop_rebases(m: EditorModel, rect: Rect, i: int)
    requires
        m.crop_area(rect) is Some,
        0 <= i < m.annotations.len(),
    ensures
        ({
            let a = m.crop_area(rect).unwrap();
            let c = m.cropped(rect);
            &&& c.annotations.len() == m.annotations.len()
            &&& c.annotations[i] == m.annotations[i].moved((-a.x) as i64, (-a.y) as i64)
            &&& c.background == Some(
                Background { width: a.pixels().width, height: a.pixels().height },
            )
            &&& c.redo == m.redo
        }),
{
}

/// Clamps one axis of a rectangle to an image that is `pixels` wide.
fn clamp_axis(origin: i64, size: i64, pixels: i32) -> (r: (i64, i64))
    requires
        size >= 0,
    ensures
        r.0 == clamp_origin(origin as int, pixels * UNIT),
        r.1 == clamp_extent(size as int, r.0 as int, pixels * UNIT),
{
    let limit: i64 = pixels as i64 * UNIT;
    let lifted: i64 = if origin < 0 {
        0
    } else {
        origin
    };
    let start: i64 = if lifted > limit {
        limit
    } else {
        lifted
    };
    let room: i64 = limit - start;
    let cut: i64 = if size > room {
        room
    } else {
        size
    };
    let extent: i64 = if cut < UNIT {
        UNIT
    } else {
        cut
    };
    (start, extent)
}

/// The part of `rect` that lies in an image of the size of `bg`: the
/// origin moved into the image, the size cut to what is left of the
/// image from there, but not below one pixel. Returns `None` for a
/// rectangle less than one pixel wide or high.
pub fn clamp_to_image(bg: Background, rect: Rect) -> (r: Option<Area>)
    ensures
        r == area_in_image(bg, rect),
{
    let (x, y, w, h): (i64, i64, i64, i64) = rect.normalized();
    if w < UNIT || h < UNIT {
        return None;
    }
    let (ax, aw): (i64, i64) = clamp_axis(x, w, bg.width);
    let (ay, ah): (i64, i64) = clamp_axis(y, h, bg.height);
    Some(Area { x: ax, y: ay, w: aw, h: ah })
}

/// Rounds an area to whole pixels.
pub fn area_pixels(a: Area) -> (r: PixelRegion)
    ensures
        r == a.pixels(),
{
    PixelRegion {
        x: to_nearest_pixel(a.x),
        y: to_nearest_pixel(a.y),
        width: to_nearest_pixel(a.w),
        height: to_nearest_pixel(a.h),
    }
}

/// What clamping yields has numbers that count pixels: rounding them to
/// pixels clamps nothing.
pub proof fn lemma_area_in_pixel_range(bg: Background, rect: Rect)
    ensures
        area_in_image(bg, rect) matches Some(a) ==> {
            &&& a.in_pixel_range()
            &&& a.pixels().x == round_whole(a.x as int)
            &&& a.pixels().y == round_whole(a.y as int)
            &&& a.pixels().width == round_whole(a.w as int)
            &&& a.pixels().height == round_whole(a.h as int)
        },
{
}

/// Crops the session to `rect` and returns the region of the old image,
/// in whole pixels, that is the new image. Returns `None`, and changes
/// nothing, without an image or for a rectangle less than one pixel wide
/// or high.
pub fn apply_crop(state: &mut EditorState, rect: Rect) -> (r: Option<PixelRegion>)
    ensures
        final(state)@ == old(state)@.cropped(rect),
        r == match old(state)@.crop_area(rect) {
            Some(a) => Some(a.pixels()),
            None => None,
        },
        old(state)@.wf() ==> final(state)@.wf(),
{
    let bg: Background = match state.background {
        Some(bg) => bg,
        None => {
            return None;
        },
    };
    let area: Area = match clamp_to_image(bg, rect) {
        Some(area) => area,
        None => {
            return None;
        },
    };
    let region: PixelRegion = area_pixels(area);
    state.background = Some(Background { width: region.width, height: region.height });
    proof {
        lemma_area_in_pixel_range(bg, rect);
    }
    let dx: i64 = -area.x;
    let dy: i64 = -area.y;
    let ghost before = old(state)@.annotations;
    let mut i: usize = 0;
    while i < state.annotations.len()
        invariant
            i <= state.annotations.len(),
            before == old(state)@.annotations,
            state.annotations@.len() == before.len(),
            forall|j: int| 0 <= j < i ==> state.annotations@[j]@ == before[j].moved(dx, dy),
            forall|j: int| i <= j < before.len() ==> state.annotations@[j]@ == before[j],
            state.redo == old(state).redo,
            state.background == Some(Background { width: region.width, height: region.height }),
            state.tool == old(state).tool,
            state.color == old(state).color,
            state.stroke_width == old(state).stroke_width,
            state.text_size == old(state).text_size,
            state.drag_start_view == old(state).drag_start_view,
            state.viewport_width == old(state).viewport_width,
            state.viewport_height == old(state).viewport_height,
            state.fit_to_window == old(state).fit_to_window,
            state.zoom == old(state).zoom,
        decreases state.annotations.len() - i,
    {
        move_annotation(&mut state.annotations[i], dx, dy);
        i += 1;
    }
    state.draft = None;
    state.crop_rect = None;
    state.selected = None;
    state.selected_original = None;
    assert(state@.annotations == before.map_values(|v: AnnotationView| v.moved(dx, dy)));
    Some(region)
}

} // verus!
