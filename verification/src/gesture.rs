//! Pointer gestures: what the beginning, the course and the end of a
//! drag, and a click, do to the session under each tool.
//!
//! The caller reports each event with its position in view space. A
//! gesture is the state of the session between a begin and an end: the
//! anchor in `drag_start_view`, and the draft, the crop rectangle or the
//! snapshot of the selected annotation that the tool works on.

use vstd::prelude::*;
use crate::annotation::{hit_test, move_annotation, topmost_hit, Annotation, AnnotationView};
use crate::crop::{apply_crop, area_pixels, clamp_to_image, PixelRegion};
use crate::editor::{option_view, EditorModel, EditorState, Tool};
use crate::fixed::{sat_sub, saturate, UNIT};
use crate::geometry::{Point, Rect};
use crate::view::map_to_image;

verus! {

/// The block size of a pixelated region drawn with the blur tool.
pub const BLUR_PIXEL_SIZE: i32 = 10;

impl AnnotationView {
    /// The draft extended to `p`: a stroke gets one more point, a shape
    /// has its far corner or end moved there. Text has no extent.
    pub open spec fn extended_to(self, p: Point) -> AnnotationView {
        match self {
            AnnotationView::Pen { points, color, width } => AnnotationView::Pen {
                points: points.push(p),
                color,
                width,
            },
            AnnotationView::Rect { rect, color, width } => AnnotationView::Rect {
                rect: rect.with_corner(p),
                color,
                width,
            },
            AnnotationView::Line { start, end, color, width, arrow } => AnnotationView::Line {
                start,
                end: p,
                color,
                width,
                arrow,
            },
            AnnotationView::Text { .. } => self,
            AnnotationView::Blur { rect, pixel_size } => AnnotationView::Blur {
                rect: rect.with_corner(p),
                pixel_size,
            },
        }
    }
}

impl EditorModel {
    /// The draft that a gesture with the current tool begins with at the
    /// image point `p`: a stroke of one point, or a shape of no extent.
    /// The tools that select, crop and place text draw nothing.
    pub open spec fn draft_at(self, p: Point) -> Option<AnnotationView> {
        match self.tool {
            Tool::Pen => Some(
                AnnotationView::Pen { points: seq![p], color: self.color, width: self.stroke_width },
            ),
            Tool::Rect => Some(
                AnnotationView::Rect {
                    rect: Rect::at(p),
                    color: self.color,
                    width: self.stroke_width,
                },
            ),
            Tool::Line => Some(
                AnnotationView::Line {
                    start: p,
                    end: p,
                    color: self.color,
                    width: self.stroke_width,
                    arrow: false,
                },
            ),
            Tool::Arrow => Some(
                AnnotationView::Line {
                    start: p,
                    end: p,
                    color: self.color,
                    width: self.stroke_width,
                    arrow: true,
                },
            ),
            Tool::Blur => Some(
                AnnotationView::Blur { rect: Rect::at(p), pixel_size: BLUR_PIXEL_SIZE },
            ),
            Tool::Select | Tool::Crop | Tool::Text => None,
        }
    }

    /// The session after a gesture began at `(x, y)` in the view. The
    /// anchor is recorded. Selecting abandons a draft and a crop
    /// rectangle, picks the topmost annotation under the pointer and
    /// keeps a snapshot of it; where nothing is under the pointer,
    /// nothing is selected and no snapshot is kept. Cropping starts a
    /// rectangle of no extent; the drawing tools start their draft.
    pub open spec fn begun(self, x: i64, y: i64) -> EditorModel {
        let p = self.to_image(x, y);
        let anchored = EditorModel { drag_start_view: Some(Point { x, y }), ..self };
        match self.tool {
            Tool::Select => match topmost_hit(self.annotations, p) {
                Some(i) => EditorModel {
                    selected: Some(i),
                    selected_original: Some(self.annotations[i]),
                    draft: None,
                    crop_rect: None,
                    ..anchored
                },
                None => EditorModel {
                    selected: None,
                    selected_original: None,
                    draft: None,
                    crop_rect: None,
                    ..anchored
                },
            },
            Tool::Crop => EditorModel {
                selected: None,
                draft: None,
                crop_rect: Some(Rect::at(p)),
                ..anchored
            },
            _ => EditorModel { draft: self.draft_at(p), ..anchored },
        }
    }

    /// The session after the pointer of the gesture in progress moved to
    /// `(x, y)` in the view. Selecting puts the selected annotation
    /// where its snapshot was, moved by the way of the pointer since the
    /// anchor, in image space: each move starts from the snapshot, so
    /// rounding does not add up. Cropping moves the far corner of the
    /// rectangle. Any other tool extends the draft. Nothing changes
    /// while no gesture is in progress.
    pub open spec fn updated(self, x: i64, y: i64) -> EditorModel {
        match self.drag_start_view {
            None => self,
            Some(start) => {
                let current = self.to_image(x, y);
                match self.tool {
                    Tool::Select => match (self.selected, self.selected_original) {
                        (Some(i), Some(original)) => {
                            let from = self.to_image(start.x, start.y);
                            EditorModel {
                                annotations: self.annotations.update(
                                    i,
                                    original.moved(
                                        saturate(current.x - from.x),
                                        saturate(current.y - from.y),
                                    ),
                                ),
                                ..self
                            }
                        },
                        _ => self,
                    },
                    Tool::Crop => match self.crop_rect {
                        Some(rect) => EditorModel {
                            crop_rect: Some(rect.with_corner(current)),
                            ..self
                        },
                        None => self,
                    },
                    _ => match self.draft {
                        Some(draft) => EditorModel {
                            draft: Some(draft.extended_to(current)),
                            ..self
                        },
                        None => self,
                    },
                }
            },
        }
    }

    /// The session after a successful crop at the end of a gesture: the
    /// crop itself, and the view back to fitting the window.
    pub open spec fn crop_committed(self, rect: Rect) -> EditorModel {
        EditorModel { fit_to_window: true, zoom: UNIT, ..self.cropped(rect) }
    }

    /// The session after the gesture in progress ended at `(x, y)` in
    /// the view. The anchor is cleared. Selecting drops the snapshot:
    /// the move is already done. Cropping applies the crop rectangle as
    /// the last update left it and, if that succeeds, fits the view to
    /// the window again. Any other tool extends the draft to the end
    /// point and commits it. Nothing changes while no gesture is in
    /// progress.
    pub open spec fn ended(self, x: i64, y: i64) -> EditorModel {
        match self.drag_start_view {
            None => self,
            Some(start) => {
                let end = self.to_image(x, y);
                let released = EditorModel { drag_start_view: None, ..self };
                match self.tool {
                    Tool::Select => EditorModel { selected_original: None, ..released },
                    Tool::Crop => match self.crop_rect {
                        Some(rect) => if released.crop_area(rect) is Some {
                            released.crop_committed(rect)
                        } else {
                            released
                        },
                        None => released,
                    },
                    _ => match self.draft {
                        Some(draft) => (EditorModel { draft: None, ..released }).pushed(
                            draft.extended_to(end),
                        ),
                        None => released,
                    },
                }
            },
        }
    }

    /// The region that the end of the gesture in progress cuts out of
    /// the image, if it is a crop that succeeds.
    pub open spec fn end_crop_region(self) -> Option<PixelRegion> {
        match (self.drag_start_view, self.tool, self.crop_rect) {
            (Some(_), Tool::Crop, Some(rect)) => match self.crop_area(rect) {
                Some(a) => Some(a.pixels()),
                None => None,
            },
            _ => None,
        }
    }

    /// The session after a click at `(x, y)` in the view with `text` to
    /// place: under the text tool the text is committed at that point in
    /// the current colour and size; under any other tool nothing
    /// happens.
    pub open spec fn text_placed(self, x: i64, y: i64, text: Seq<char>) -> EditorModel {
        if self.tool == Tool::Text {
            self.pushed(
                AnnotationView::Text {
                    pos: self.to_image(x, y),
                    text,
                    color: self.color,
                    size: self.text_size,
                },
            )
        } else {
            self
        }
    }
}

/// What a tool starts a draft with is well-formed, and extending a draft
/// keeps it so.
pub proof fn lemma_drafts_are_wf(m: EditorModel, p: Point, q: Point)
    ensures
        m.draft_at(p) matches Some(d) ==> d.wf() && d.extended_to(q).wf(),
        m.draft matches Some(d) ==> (d.wf() ==> d.extended_to(q).wf()),
{
}

/// Every step of a gesture keeps the invariant of the session: a
/// selection always names an existing annotation.
pub proof fn lemma_gestures_keep_wf(m: EditorModel, x: i64, y: i64, text: Seq<char>)
    requires
        m.wf(),
    ensures
        m.begun(x, y).wf(),
        m.updated(x, y).wf(),
        m.ended(x, y).wf(),
        m.text_placed(x, y, text).wf(),
{
    let p = m.to_image(x, y);
    crate::annotation::lemma_topmost_hit(m.annotations, p);
    lemma_drafts_are_wf(m, p, p);
    if m.tool == Tool::Crop && m.crop_rect is Some {
        crate::crop::lemma_cropped_keeps_wf(
            EditorModel { drag_start_view: None, ..m },
            m.crop_rect.unwrap(),
        );
    }
}

/// Beginning a gesture with the select tool leaves no draft and no crop
/// rectangle, whether or not anything lies under the pointer. It selects
/// the topmost annotation under the pointer and keeps a snapshot of just
/// that one, or selects nothing and keeps none; the annotations and the
/// redo stack stay as they are.
pub proof fn lemma_select_begins_clean(m: EditorModel, x: i64, y: i64)
    requires
        m.tool == Tool::Select,
    ensures
        ({
            let b = m.begun(x, y);
            let hit = topmost_hit(m.annotations, m.to_image(x, y));
            &&& b.draft is None
            &&& b.crop_rect is None
            &&& b.selected == hit
            &&& b.selected_original == match hit {
                Some(i) => Some(m.annotations[i]),
                None => None,
            }
            &&& hit matches Some(i) ==> 0 <= i < m.annotations.len()
            &&& b.annotations == m.annotations
            &&& b.redo == m.redo
            &&& b.drag_start_view == Some(Point { x, y })
        }),
{
    crate::annotation::lemma_topmost_hit(m.annotations, m.to_image(x, y));
}

/// While an annotation is dragged, only the last position of the pointer
/// counts: each update moves the annotation from where it was when the
/// drag began, so two updates leave the session as the second alone
/// would.
pub proof fn lemma_select_updates_do_not_accumulate(
    m: EditorModel,
    x1: i64,
    y1: i64,
    x2: i64,
    y2: i64,
)
    requires
        m.wf(),
        m.tool == Tool::Select,
    ensures
        m.updated(x1, y1).updated(x2, y2) == m.updated(x2, y2),
{
    let once = m.updated(x1, y1);
    match (m.drag_start_view, m.selected, m.selected_original) {
        (Some(start), Some(i), Some(original)) => {
            assert(once.updated(x2, y2).annotations == m.updated(x2, y2).annotations);
        },
        _ => {},
    }
}

/// Dragging the topmost annotation moves it by the way of the pointer
/// in image space and leaves the others alone; an undo then removes it,
/// and a redo brings it back where it was dragged to, not where it was
/// drawn.
pub proof fn lemma_drag_survives_undo_and_redo(m: EditorModel, x0: i64, y0: i64, x1: i64, y1: i64)
    requires
        m.tool == Tool::Select,
        m.annotations.len() > 0,
        m.annotations.last().hit_by(m.to_image(x0, y0)),
    ensures
        ({
            let from = m.to_image(x0, y0);
            let to = m.to_image(x1, y1);
            let dragged = m.begun(x0, y0).updated(x1, y1).ended(x1, y1);
            let moved = m.annotations.last().moved(
                saturate(to.x - from.x),
                saturate(to.y - from.y),
            );
            &&& dragged.annotations == m.annotations.drop_last().push(moved)
            &&& dragged.undone().annotations == m.annotations.drop_last()
            &&& dragged.undone().redone().annotations == dragged.annotations
        }),
{
    let last = m.annotations.len() - 1;
    let held = m.begun(x0, y0);
    assert(held.selected == Some(last));
    let dragged = held.updated(x1, y1).ended(x1, y1);
    assert(dragged.annotations == m.annotations.drop_last().push(dragged.annotations[last]));
    crate::editor::lemma_undo_redo_round_trip(dragged);
}

/// A stroke drawn by one gesture has one point for its begin, one for
/// each update and one for its end, in that order.
pub proof fn lemma_pen_gesture(m: EditorModel, x0: i64, y0: i64, x1: i64, y1: i64, x2: i64, y2: i64)
    requires
        m.tool == Tool::Pen,
    ensures
        ({
            let done = m.begun(x0, y0).updated(x1, y1).ended(x2, y2);
            &&& done.annotations == m.annotations.push(
                AnnotationView::Pen {
                    points: seq![m.to_image(x0, y0), m.to_image(x1, y1), m.to_image(x2, y2)],
                    color: m.color,
                    width: m.stroke_width,
                },
            )
            &&& done.draft is None
            &&& done.drag_start_view is None
            &&& done.redo.len() == 0
        }),
{
    let first = m.to_image(x0, y0);
    let second = m.to_image(x1, y1);
    let third = m.to_image(x2, y2);
    assert(seq![first].push(second).push(third) == seq![first, second, third]);
}

/// Makes the draft that a gesture with `tool` begins with at `p`.
fn start_draft(state: &EditorState, p: Point) -> (r: Option<Annotation>)
    ensures
        option_view(r) == state@.draft_at(p),
{
    match state.tool {
        Tool::Pen => {
            let mut points: Vec<Point> = Vec::new();
            points.push(p);
            Some(Annotation::Pen { points, color: state.color, width: state.stroke_width })
        },
        Tool::Rect => Some(
            Annotation::Rect {
                rect: Rect::at_point(p),
                color: state.color,
                width: state.stroke_width,
            },
        ),
        Tool::Line => Some(
            Annotation::Line {
                start: p,
                end: p,
                color: state.color,
                width: state.stroke_width,
                arrow: false,
            },
        ),
        Tool::Arrow => Some(
            Annotation::Line {
                start: p,
                end: p,
                color: state.color,
                width: state.stroke_width,
                arrow: true,
            },
        ),
        Tool::Blur => Some(
            Annotation::Blur { rect: Rect::at_point(p), pixel_size: BLUR_PIXEL_SIZE },
        ),
        Tool::Select => None,
        Tool::Crop => None,
        Tool::Text => None,
    }
}

/// Extends a draft to `p`: a stroke gets one more point, a shape has its
/// far corner or end moved there.
pub fn extend_draft(draft: Annotation, p: Point) -> (r: Annotation)
    ensures
        r@ == draft@.extended_to(p),
{
    match draft {
        Annotation::Pen { points, color, width } => {
            let mut points = points;
            points.push(p);
            Annotation::Pen { points, color, width }
        },
        Annotation::Rect { rect, color, width } => Annotation::Rect {
            rect: rect.drag_to(p),
            color,
            width,
        },
        Annotation::Line { start, end, color, width, arrow } => Annotation::Line {
            start,
            end: p,
            color,
            width,
            arrow,
        },
        Annotation::Text { pos, text, color, size } => Annotation::Text { pos, text, color, size },
        Annotation::Blur { rect, pixel_size } => Annotation::Blur {
            rect: rect.drag_to(p),
            pixel_size,
        },
    }
}

impl EditorState {
    /// Begins a gesture at `(x, y)` in the view.
    pub fn begin_gesture(&mut self, x: i64, y: i64)
        ensures
            final(self)@ == old(self)@.begun(x, y),
            old(self)@.wf() ==> final(self)@.wf(),
    {
        proof {
            if self@.wf() {
                lemma_gestures_keep_wf(self@, x, y, Seq::empty());
            }
        }
        let p: Point = map_to_image(self, x, y);
        self.drag_start_view = Some(Point { x, y });
        match self.tool {
            Tool::Select => {
                self.draft = None;
                self.crop_rect = None;
                let hit: Option<usize> = hit_test(self.annotations.as_slice(), p);
                match hit {
                    Some(index) => {
                        self.selected = Some(index);
                        self.selected_original = Some(self.annotations[index].clone());
                    },
                    None => {
                        self.selected = None;
                        self.selected_original = None;
                    },
                }
            },
            Tool::Crop => {
                self.selected = None;
                self.draft = None;
                self.crop_rect = Some(Rect::at_point(p));
            },
            _ => {
                self.draft = start_draft(self, p);
            },
        }
    }

    /// Reports that the pointer of the gesture in progress moved to
    /// `(x, y)` in the view. Does nothing while no gesture is in
    /// progress.
    pub fn update_gesture(&mut self, x: i64, y: i64)
        requires
            old(self)@.wf(),
        ensures
            final(self)@ == old(self)@.updated(x, y),
            final(self)@.wf(),
    {
        proof {
            lemma_gestures_keep_wf(self@, x, y, Seq::empty());
        }
        let start: Point = match self.drag_start_view {
            Some(start) => start,
            None => {
                return ;
            },
        };
        let current: Point = map_to_image(self, x, y);
        match self.tool {
            Tool::Select => {
                let from: Point = map_to_image(self, start.x, start.y);
                let index: usize = match self.selected {
                    Some(index) => index,
                    None => {
                        return ;
                    },
                };
                let mut moved: Annotation = match &self.selected_original {
                    Some(original) => original.clone(),
                    None => {
                        return ;
                    },
                };
                move_annotation(&mut moved, sat_sub(current.x, from.x), sat_sub(current.y, from.y));
                self.annotations[index] = moved;
                assert(self@.annotations == old(self)@.annotations.update(index as int, moved@));
            },
            Tool::Crop => {
                match self.crop_rect {
                    Some(rect) => {
                        self.crop_rect = Some(rect.drag_to(current));
                    },
                    None => {},
                }
            },
            _ => {
                match self.draft.take() {
                    Some(draft) => {
                        self.draft = Some(extend_draft(draft, current));
                    },
                    None => {},
                }
            },
        }
    }

    /// The region of the image that ending the gesture in progress would
    /// cut out: `Some` exactly where the end is a crop that succeeds. A
    /// caller that owns the pixels can test the region against them
    /// before it ends the gesture.
    pub fn pending_crop(&self) -> (r: Option<PixelRegion>)
        ensures
            r == self@.end_crop_region(),
    {
        if self.drag_start_view.is_none() {
            return None;
        }
        match self.tool {
            Tool::Crop => {},
            _ => {
                return None;
            },
        }
        match (self.crop_rect, self.background) {
            (Some(rect), Some(bg)) => match clamp_to_image(bg, rect) {
                Some(area) => Some(area_pixels(area)),
                None => None,
            },
            _ => None,
        }
    }

    /// Ends the gesture in progress at `(x, y)` in the view. Where that
    /// crops the image, returns the region of the old image, in whole
    /// pixels, that is the new image: the caller cuts its pixels to it.
    /// Does nothing while no gesture is in progress.
    pub fn end_gesture(&mut self, x: i64, y: i64) -> (r: Option<PixelRegion>)
        ensures
            final(self)@ == old(self)@.ended(x, y),
            r == old(self)@.end_crop_region(),
            old(self)@.wf() ==> final(self)@.wf(),
    {
        proof {
            if self@.wf() {
                lemma_gestures_keep_wf(self@, x, y, Seq::empty());
            }
        }
        if self.drag_start_view.is_none() {
            return None;
        }
        let end: Point = map_to_image(self, x, y);
        self.drag_start_view = None;
        match self.tool {
            Tool::Select => {
                self.selected_original = None;
                None
            },
            Tool::Crop => {
                match self.crop_rect {
                    Some(rect) => {
                        let region: Option<PixelRegion> = apply_crop(self, rect);
                        if region.is_some() {
                            self.fit_to_window = true;
                            self.zoom = UNIT;
                        }
                        region
                    },
                    None => None,
                }
            },
            _ => {
                match self.draft.take() {
                    Some(draft) => {
                        self.push_annotation(extend_draft(draft, end));
                    },
                    None => {},
                }
                None
            },
        }
    }

    /// Handles a click at `(x, y)` in the view: under the text tool,
    /// commits `text` at that point in the current colour and size.
    /// Under any other tool a click by itself does nothing.
    pub fn place_text(&mut self, x: i64, y: i64, text: String)
        ensures
            final(self)@ == old(self)@.text_placed(x, y, text@),
            old(self)@.wf() ==> final(self)@.wf(),
    {
        proof {
            if self@.wf() {
                lemma_gestures_keep_wf(self@, x, y, text@);
            }
        }
        match self.tool {
            Tool::Text => {
                let pos: Point = map_to_image(self, x, y);
                let annotation: Annotation = Annotation::Text {
                    pos,
                    text,
                    color: self.color,
                    size: self.text_size,
                };
                self.push_annotation(annotation);
            },
            _ => {},
        }
    }
}

} // verus!
