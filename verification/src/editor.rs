//! The state of one editing session and the operations that change it
//! outside of pointer gestures: history, settings, and the replacement of
//! the background.

use vstd::prelude::*;
use crate::annotation::{index_view, views, Annotation, AnnotationView, Rgba};
use crate::fixed::UNIT;
use crate::geometry::{Point, Rect};

verus! {

/// The editing tool that decides how pointer gestures are interpreted.
#[derive(Clone, Copy, Debug, PartialEq, Eq, Structural)]
pub enum Tool {
    Select,
    Pen,
    Rect,
    Line,
    Arrow,
    Text,
    Blur,
    Crop,
}

/// The background image, as far as the editor needs to know it: its size
/// in pixels. The pixels themselves stay with the caller.
#[derive(Clone, Copy, Debug, PartialEq, Eq, Structural)]
pub struct Background {
    pub width: i32,
    pub height: i32,
}

/// Everything that belongs to one editing session.
#[derive(Debug)]
pub struct EditorState {
    /// The image being annotated, if one was loaded.
    pub background: Option<Background>,
    /// The committed annotations in paint order: the first is furthest
    /// back.
    pub annotations: Vec<Annotation>,
    /// The annotations that were undone; the last is the next to come
    /// back.
    pub redo: Vec<Annotation>,
    pub tool: Tool,
    pub color: Rgba,
    pub stroke_width: i64,
    pub text_size: i64,
    /// The annotation under construction by the gesture in progress.
    pub draft: Option<Annotation>,
    /// Where the gesture in progress began, in view space.
    pub drag_start_view: Option<Point>,
    pub viewport_width: i32,
    pub viewport_height: i32,
    pub fit_to_window: bool,
    pub zoom: i64,
    /// The index of the selected annotation.
    pub selected: Option<usize>,
    /// The selected annotation as it was when the drag that moves it
    /// began.
    pub selected_original: Option<Annotation>,
    /// The crop rectangle under construction, in image space.
    pub crop_rect: Option<Rect>,
}

/// The mathematical value of an [`EditorState`].
pub struct EditorModel {
    pub background: Option<Background>,
    pub annotations: Seq<AnnotationView>,
    pub redo: Seq<AnnotationView>,
    pub tool: Tool,
    pub color: Rgba,
    pub stroke_width: i64,
    pub text_size: i64,
    pub draft: Option<AnnotationView>,
    pub drag_start_view: Option<Point>,
    pub viewport_width: i32,
    pub viewport_height: i32,
    pub fit_to_window: bool,
    pub zoom: i64,
    pub selected: Option<int>,
    pub selected_original: Option<AnnotationView>,
    pub crop_rect: Option<Rect>,
}

/// The view of an annotation that may be absent.
pub open spec fn option_view(a: Option<Annotation>) -> Option<AnnotationView> {
    match a {
        Some(a) => Some(a@),
        None => None,
    }
}

impl View for EditorState {
    type V = EditorModel;

    open spec fn view(&self) -> EditorModel {
        EditorModel {
            background: self.background,
            annotations: views(self.annotations@),
            redo: views(self.redo@),
            tool: self.tool,
            color: self.color,
            stroke_width: self.stroke_width,
            text_size: self.text_size,
            draft: option_view(self.draft),
            drag_start_view: self.drag_start_view,
            viewport_width: self.viewport_width,
            viewport_height: self.viewport_height,
            fit_to_window: self.fit_to_window,
            zoom: self.zoom,
            selected: index_view(self.selected),
            selected_original: option_view(self.selected_original),
            crop_rect: self.crop_rect,
        }
    }
}

/// Opaque black.
pub open spec fn black() -> Rgba {
    Rgba { red: 0, green: 0, blue: 0, alpha: 1_000_000 }
}

impl EditorModel {
    /// The invariant of a session: a selection names an existing
    /// annotation, and every annotation held anywhere is well-formed.
    pub open spec fn wf(self) -> bool {
        &&& self.selected matches Some(i) ==> 0 <= i < self.annotations.len()
        &&& forall|i: int| 0 <= i < self.annotations.len() ==> (#[trigger] self.annotations[i]).wf()
        &&& forall|i: int| 0 <= i < self.redo.len() ==> (#[trigger] self.redo[i]).wf()
        &&& self.draft matches Some(a) ==> a.wf()
        &&& self.selected_original matches Some(a) ==> a.wf()
    }

    /// A session as it begins: nothing loaded, nothing drawn, the pen in
    /// hand, black ink, the image fitted to the window.
    pub open spec fn initial() -> EditorModel {
        EditorModel {
            background: None,
            annotations: Seq::empty(),
            redo: Seq::empty(),
            tool: Tool::Pen,
            color: black(),
            stroke_width: 4_000_000,
            text_size: 22_000_000,
            draft: None,
            drag_start_view: None,
            viewport_width: 0,
            viewport_height: 0,
            fit_to_window: true,
            zoom: 1_000_000,
            selected: None,
            selected_original: None,
            crop_rect: None,
        }
    }

    /// The session after `background` replaced the image: a new image
    /// starts from nothing, only the settings stay.
    pub open spec fn with_background(self, background: Background) -> EditorModel {
        EditorModel {
            background: Some(background),
            annotations: Seq::empty(),
            redo: Seq::empty(),
            draft: None,
            drag_start_view: None,
            selected: None,
            selected_original: None,
            crop_rect: None,
            ..self
        }
    }

    /// The session after `annotation` was committed: it is on top, and
    /// what had been undone is gone for good.
    pub open spec fn pushed(self, annotation: AnnotationView) -> EditorModel {
        EditorModel { annotations: self.annotations.push(annotation), redo: Seq::empty(), ..self }
    }

    /// The session after one step back: the top annotation moved to the
    /// redo stack, and a selection that named it dropped. Nothing changes
    /// where there is no annotation.
    pub open spec fn undone(self) -> EditorModel {
        if self.annotations.len() == 0 {
            self
        } else {
            let rest = self.annotations.drop_last();
            let keep = self.selected matches Some(i) && 0 <= i < rest.len();
            EditorModel {
                annotations: rest,
                redo: self.redo.push(self.annotations.last()),
                selected: if keep {
                    self.selected
                } else {
                    None
                },
                selected_original: if keep {
                    self.selected_original
                } else {
                    None
                },
                ..self
            }
        }
    }

    /// The session after one step forward: the top of the redo stack is
    /// an annotation again, on top of the others. Nothing changes where
    /// nothing was undone.
    pub open spec fn redone(self) -> EditorModel {
        if self.redo.len() == 0 {
            self
        } else {
            EditorModel {
                annotations: self.annotations.push(self.redo.last()),
                redo: self.redo.drop_last(),
                ..self
            }
        }
    }

    /// The session after `tool` was picked: whatever was in progress
    /// under the previous tool is abandoned.
    pub open spec fn with_tool(self, tool: Tool) -> EditorModel {
        EditorModel {
            tool,
            draft: None,
            crop_rect: None,
            selected: None,
            selected_original: None,
            ..self
        }
    }
}

/// History is a line, not a tree: committing after an undo discards what
/// was undone. After committing `a` and `b`, undoing once and committing
/// `c`, the session ends in `a, c`, and a redo changes nothing.
pub proof fn lemma_history_is_linear(
    s: EditorModel,
    a: AnnotationView,
    b: AnnotationView,
    c: AnnotationView,
)
    ensures
        s.pushed(a).pushed(b).undone().pushed(c).annotations == s.annotations.push(a).push(c),
        s.pushed(a).pushed(b).undone().pushed(c).redone() == s.pushed(a).pushed(b).undone().pushed(
            c,
        ),
{
    assert(s.pushed(a).pushed(b).annotations.drop_last() == s.annotations.push(a));
}

/// An undo followed by a redo brings the annotations back as they were,
/// and so does a redo followed by an undo.
pub proof fn lemma_undo_redo_round_trip(s: EditorModel)
    ensures
        s.annotations.len() > 0 ==> s.undone().redone().annotations == s.annotations
            && s.undone().redone().redo == s.redo,
        s.redo.len() > 0 ==> s.redone().undone().annotations == s.annotations
            && s.redone().undone().redo == s.redo,
{
    if s.annotations.len() > 0 {
        let u = s.undone();
        assert(u.annotations.push(u.redo.last()) == s.annotations);
        assert(u.redo.drop_last() == s.redo);
    }
    if s.redo.len() > 0 {
        let r = s.redone();
        assert(r.annotations.drop_last() == s.annotations);
        assert(r.redo.push(r.annotations.last()) == s.redo);
    }
}

/// The history operations and the choice of a tool keep the invariant of
/// the session.
pub proof fn lemma_history_keeps_wf(s: EditorModel, a: AnnotationView, tool: Tool)
    requires
        s.wf(),
    ensures
        a.wf() ==> s.pushed(a).wf(),
        s.undone().wf(),
        s.redone().wf(),
        s.with_tool(tool).wf(),
        EditorModel::initial().wf(),
{
}

/// Tests whether every annotation of a vector is well-formed.
fn all_well_formed(annotations: &Vec<Annotation>) -> (r: bool)
    ensures
        r == forall|i: int|
            0 <= i < annotations@.len() ==> (#[trigger] views(annotations@)[i]).wf(),
{
    let mut i: usize = 0;
    while i < annotations.len()
        invariant
            i <= annotations.len(),
            forall|j: int| 0 <= j < i ==> (#[trigger] views(annotations@)[j]).wf(),
        decreases annotations.len() - i,
    {
        if !annotations[i].is_well_formed() {
            assert(!views(annotations@)[i as int].wf());
            return false;
        }
        i += 1;
    }
    true
}

/// Tests whether an annotation that may be absent is well-formed.
fn absent_or_well_formed(annotation: &Option<Annotation>) -> (r: bool)
    ensures
        r == (option_view(*annotation) matches Some(a) ==> a.wf()),
{
    match annotation {
        Some(a) => a.is_well_formed(),
        None => true,
    }
}

impl EditorState {
    /// Tests the invariant of the session: a selection names an
    /// existing annotation, and every annotation held anywhere is
    /// well-formed. The operations of this library keep it; a caller
    /// that writes to the fields can test it with this.
    pub fn is_well_formed(&self) -> (r: bool)
        ensures
            r == self@.wf(),
    {
        let selection_ok: bool = match self.selected {
            Some(i) => i < self.annotations.len(),
            None => true,
        };
        let annotations_ok: bool = all_well_formed(&self.annotations);
        let redo_ok: bool = all_well_formed(&self.redo);
        let draft_ok: bool = absent_or_well_formed(&self.draft);
        let snapshot_ok: bool = absent_or_well_formed(&self.selected_original);
        assert(self@.annotations.len() == self.annotations@.len());
        assert(self@.redo.len() == self.redo@.len());
        selection_ok && annotations_ok && redo_ok && draft_ok && snapshot_ok
    }

    /// Starts a session: nothing loaded, nothing drawn, the pen in hand,
    /// black ink four pixels wide, text at twenty-two, the image fitted
    /// to the window.
    pub fn new() -> (s: Self)
        ensures
            s@ == EditorModel::initial(),
            s@.wf(),
    {
        let s = EditorState {
            background: None,
            annotations: Vec::new(),
            redo: Vec::new(),
            tool: Tool::Pen,
            color: Rgba { red: 0, green: 0, blue: 0, alpha: 1_000_000 },
            stroke_width: 4 * UNIT,
            text_size: 22 * UNIT,
            draft: None,
            drag_start_view: None,
            viewport_width: 0,
            viewport_height: 0,
            fit_to_window: true,
            zoom: UNIT,
            selected: None,
            selected_original: None,
            crop_rect: None,
        };
        assert(s@.annotations == Seq::<AnnotationView>::empty());
        assert(s@.redo == Seq::<AnnotationView>::empty());
        s
    }

    /// Replaces the background. A new image starts a new session: the
    /// annotations, the redo stack, the draft, the selection and the
    /// crop rectangle are dropped; the settings stay.
    pub fn set_background(&mut self, background: Background)
        ensures
            final(self)@ == old(self)@.with_background(background),
            final(self)@.wf(),
    {
        self.background = Some(background);
        self.annotations.clear();
        self.redo.clear();
        self.draft = None;
        self.drag_start_view = None;
        self.selected = None;
        self.selected_original = None;
        self.crop_rect = None;
        assert(self@.annotations == Seq::<AnnotationView>::empty());
        assert(self@.redo == Seq::<AnnotationView>::empty());
    }

    /// Commits `annotation` on top of the others and empties the redo
    /// stack.
    pub fn push_annotation(&mut self, annotation: Annotation)
        ensures
            final(self)@ == old(self)@.pushed(annotation@),
            old(self)@.wf() && annotation@.wf() ==> final(self)@.wf(),
    {
        self.annotations.push(annotation);
        self.redo.clear();
        assert(self@.annotations == old(self)@.annotations.push(annotation@));
        assert(self@.redo == Seq::<AnnotationView>::empty());
    }

    /// Takes the top annotation back: it moves to the redo stack, and a
    /// selection that named it is dropped. Does nothing where there is no
    /// annotation.
    pub fn undo(&mut self)
        ensures
            final(self)@ == old(self)@.undone(),
            old(self)@.wf() ==> final(self)@.wf(),
    {
        match self.annotations.pop() {
            Some(last) => {
                self.redo.push(last);
                let keep: bool = match self.selected {
                    Some(i) => i < self.annotations.len(),
                    None => false,
                };
                if !keep {
                    self.selected = None;
                    self.selected_original = None;
                }
                assert(self@.annotations == old(self)@.annotations.drop_last());
                assert(self@.redo == old(self)@.redo.push(old(self)@.annotations.last()));
            },
            None => {},
        }
    }

    /// Brings the annotation undone last back on top. Does nothing where
    /// nothing was undone.
    pub fn redo(&mut self)
        ensures
            final(self)@ == old(self)@.redone(),
            old(self)@.wf() ==> final(self)@.wf(),
    {
        match self.redo.pop() {
            Some(next) => {
                self.annotations.push(next);
                assert(self@.redo == old(self)@.redo.drop_last());
                assert(self@.annotations == old(self)@.annotations.push(old(self)@.redo.last()));
            },
            None => {},
        }
    }

    /// Picks a tool and abandons what was in progress under the previous
    /// one: the draft, the crop rectangle and the selection.
    pub fn set_tool(&mut self, tool: Tool)
        ensures
            final(self)@ == old(self)@.with_tool(tool),
            old(self)@.wf() ==> final(self)@.wf(),
    {
        self.tool = tool;
        self.draft = None;
        self.crop_rect = None;
        self.selected = None;
        self.selected_original = None;
    }

    /// Sets the colour that new annotations get.
    pub fn set_color(&mut self, color: Rgba)
        ensures
            final(self)@ == (EditorModel { color, ..old(self)@ }),
            old(self)@.wf() ==> final(self)@.wf(),
    {
        self.color = color;
    }

    /// Sets the stroke width that new annotations get.
    pub fn set_stroke_width(&mut self, width: i64)
        ensures
            final(self)@ == (EditorModel { stroke_width: width, ..old(self)@ }),
            old(self)@.wf() ==> final(self)@.wf(),
    {
        self.stroke_width = width;
    }

    /// Sets the size that new text gets.
    pub fn set_text_size(&mut self, size: i64)
        ensures
            final(self)@ == (EditorModel { text_size: size, ..old(self)@ }),
            old(self)@.wf() ==> final(self)@.wf(),
    {
        self.text_size = size;
    }

    /// Records the size of the viewport, in pixels.
    pub fn set_viewport(&mut self, width: i32, height: i32)
        ensures
            final(self)@ == (EditorModel {
                viewport_width: width,
                viewport_height: height,
                ..old(self)@
            }),
            old(self)@.wf() ==> final(self)@.wf(),
    {
        self.viewport_width = width;
        self.viewport_height = height;
    }

    /// Sets the zoom factor, which takes the place of fitting the image
    /// to the window.
    pub fn set_zoom(&mut self, zoom: i64)
        ensures
            final(self)@ == (EditorModel { zoom, fit_to_window: false, ..old(self)@ }),
            old(self)@.wf() ==> final(self)@.wf(),
    {
        self.fit_to_window = false;
        self.zoom = zoom;
    }

    /// Turns fitting the image to the window on or off.
    pub fn set_fit_to_window(&mut self, fit: bool)
        ensures
            final(self)@ == (EditorModel { fit_to_window: fit, ..old(self)@ }),
            old(self)@.wf() ==> final(self)@.wf(),
    {
        self.fit_to_window = fit;
    }
}

} // verus!
