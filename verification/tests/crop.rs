use greatshot::crop::{area_pixels, clamp_to_image};
use greatshot::{
    apply_crop, Annotation, Area, Background, EditorState, PixelRegion, Point, Rect, Rgba, UNIT,
};

fn px(n: i64) -> i64 {
    n * UNIT
}

fn ink() -> Rgba {
    Rgba { red: 0, green: 0, blue: 0, alpha: 1_000_000 }
}

fn text_at(x: i64, y: i64) -> Annotation {
    Annotation::Text {
        pos: Point { x: px(x), y: px(y) },
        text: String::from("Text"),
        color: ink(),
        size: px(22),
    }
}

fn pos_of(a: &Annotation) -> Point {
    match a {
        Annotation::Text { pos, .. } => *pos,
        _ => panic!("not text"),
    }
}

fn session() -> EditorState {
    let mut s = EditorState::new();
    s.set_background(Background { width: 400, height: 300 });
    s
}

#[test]
fn crop_rebasing() {
    let mut s = session();
    s.push_annotation(text_at(50, 50));
    let region = apply_crop(&mut s, Rect { x1: px(20), y1: px(20), x2: px(120), y2: px(120) });
    assert_eq!(region, Some(PixelRegion { x: 20, y: 20, width: 100, height: 100 }));
    assert_eq!(pos_of(&s.annotations[0]), Point { x: px(30), y: px(30) });
    assert_eq!(s.background, Some(Background { width: 100, height: 100 }));
}

#[test]
fn crop_rebases_every_annotation_and_keeps_their_order() {
    let mut s = session();
    s.push_annotation(text_at(50, 50));
    s.push_annotation(Annotation::Pen {
        points: vec![Point { x: px(10), y: px(10) }, Point { x: px(200), y: px(100) }],
        color: ink(),
        width: px(4),
    });
    s.push_annotation(Annotation::Blur {
        rect: Rect { x1: px(30), y1: px(40), x2: px(60), y2: px(80) },
        pixel_size: 10,
    });
    // corners in the other order
    let region = apply_crop(&mut s, Rect { x1: px(120), y1: px(70), x2: px(20), y2: px(30) });
    assert_eq!(region, Some(PixelRegion { x: 20, y: 30, width: 100, height: 40 }));
    assert_eq!(s.annotations.len(), 3);
    assert_eq!(pos_of(&s.annotations[0]), Point { x: px(30), y: px(20) });
    match &s.annotations[1] {
        Annotation::Pen { points, .. } => assert_eq!(
            points,
            &vec![Point { x: px(-10), y: px(-20) }, Point { x: px(180), y: px(70) }]
        ),
        _ => panic!("order changed"),
    }
    match &s.annotations[2] {
        Annotation::Blur { rect, pixel_size } => {
            assert_eq!(*rect, Rect { x1: px(10), y1: px(10), x2: px(40), y2: px(50) });
            assert_eq!(*pixel_size, 10);
        }
        _ => panic!("order changed"),
    }
}

#[test]
fn crop_clears_work_in_progress_but_not_the_redo_stack() {
    let mut s = session();
    s.push_annotation(text_at(50, 50));
    s.push_annotation(text_at(60, 60));
    s.undo();
    s.draft = Some(text_at(1, 1));
    s.selected = Some(0);
    s.selected_original = Some(text_at(50, 50));
    s.crop_rect = Some(Rect { x1: 0, y1: 0, x2: px(5), y2: px(5) });
    s.set_zoom(px(2));
    let region = apply_crop(&mut s, Rect { x1: px(20), y1: px(20), x2: px(120), y2: px(120) });
    assert!(region.is_some());
    assert!(s.draft.is_none());
    assert!(s.selected.is_none());
    assert!(s.selected_original.is_none());
    assert!(s.crop_rect.is_none());
    assert_eq!(s.redo.len(), 1);
    // the annotation on the redo stack is not rebased
    assert_eq!(pos_of(&s.redo[0]), Point { x: px(60), y: px(60) });
    // the view is left to the caller
    assert_eq!(s.zoom, px(2));
    assert!(!s.fit_to_window);
}

#[test]
fn crop_without_background_fails_and_changes_nothing() {
    let mut s = EditorState::new();
    s.push_annotation(text_at(50, 50));
    s.selected = Some(0);
    s.crop_rect = Some(Rect { x1: 0, y1: 0, x2: px(5), y2: px(5) });
    let region = apply_crop(&mut s, Rect { x1: px(20), y1: px(20), x2: px(120), y2: px(120) });
    assert_eq!(region, None);
    assert!(s.background.is_none());
    assert_eq!(pos_of(&s.annotations[0]), Point { x: px(50), y: px(50) });
    assert_eq!(s.selected, Some(0));
    assert!(s.crop_rect.is_some());
}

#[test]
fn crop_to_less_than_a_pixel_fails_and_changes_nothing() {
    let mut s = session();
    s.push_annotation(text_at(50, 50));
    s.selected = Some(0);
    for rect in [
        Rect { x1: px(20), y1: px(20), x2: px(20), y2: px(20) },
        Rect { x1: px(20), y1: px(20), x2: px(21) - 1, y2: px(120) },
        Rect { x1: px(20), y1: px(120), x2: px(120), y2: px(119) + 1 },
    ] {
        assert_eq!(apply_crop(&mut s, rect), None);
        assert_eq!(s.background, Some(Background { width: 400, height: 300 }));
        assert_eq!(pos_of(&s.annotations[0]), Point { x: px(50), y: px(50) });
        assert_eq!(s.selected, Some(0));
    }
    // exactly one pixel is enough
    let region = apply_crop(&mut s, Rect { x1: px(20), y1: px(20), x2: px(21), y2: px(21) });
    assert_eq!(region, Some(PixelRegion { x: 20, y: 20, width: 1, height: 1 }));
}

#[test]
fn crop_is_clamped_to_the_image() {
    let mut s = session();
    s.push_annotation(text_at(390, 290));
    // reaches beyond the lower right corner
    let region = apply_crop(&mut s, Rect { x1: px(350), y1: px(250), x2: px(450), y2: px(350) });
    assert_eq!(region, Some(PixelRegion { x: 350, y: 250, width: 50, height: 50 }));
    assert_eq!(s.background, Some(Background { width: 50, height: 50 }));
    assert_eq!(pos_of(&s.annotations[0]), Point { x: px(40), y: px(40) });
}

#[test]
fn crop_starting_outside_of_the_image() {
    let bg = Background { width: 400, height: 300 };
    // the origin is moved into the image; the size is not cut for that
    let a = clamp_to_image(bg, Rect { x1: px(-50), y1: px(-10), x2: px(100), y2: px(100) });
    assert_eq!(a, Some(Area { x: 0, y: 0, w: px(150), h: px(110) }));
    // entirely beyond the image: one pixel at the border
    let a = clamp_to_image(bg, Rect { x1: px(500), y1: px(400), x2: px(600), y2: px(450) });
    assert_eq!(a, Some(Area { x: px(400), y: px(300), w: px(1), h: px(1) }));
}

#[test]
fn clamped_area_rounds_to_whole_pixels() {
    let bg = Background { width: 400, height: 300 };
    let rect = Rect { x1: 10_400_000, y1: 10_500_000, x2: 110_900_000, y2: 60_000_000 };
    let a = match clamp_to_image(bg, rect) {
        Some(a) => a,
        None => panic!("no area"),
    };
    assert_eq!(a, Area { x: 10_400_000, y: 10_500_000, w: 100_500_000, h: 49_500_000 });
    assert_eq!(area_pixels(a), PixelRegion { x: 10, y: 11, width: 101, height: 50 });
}

#[test]
fn crop_moves_by_the_unrounded_origin() {
    let mut s = session();
    s.push_annotation(text_at(50, 50));
    let region =
        apply_crop(&mut s, Rect { x1: 20_400_000, y1: 20_600_000, x2: px(120), y2: px(120) });
    assert_eq!(region, Some(PixelRegion { x: 20, y: 21, width: 100, height: 99 }));
    assert_eq!(pos_of(&s.annotations[0]), Point { x: 29_600_000, y: 29_400_000 });
}

#[test]
fn a_region_is_tested_against_the_image() {
    let bg = Background { width: 400, height: 300 };
    assert!(PixelRegion { x: 0, y: 0, width: 400, height: 300 }.lies_within(bg));
    assert!(PixelRegion { x: 399, y: 299, width: 1, height: 1 }.lies_within(bg));
    assert!(!PixelRegion { x: 399, y: 299, width: 2, height: 1 }.lies_within(bg));
    assert!(!PixelRegion { x: 400, y: 0, width: 1, height: 1 }.lies_within(bg));
    assert!(!PixelRegion { x: -1, y: 0, width: 10, height: 10 }.lies_within(bg));
    assert!(!PixelRegion { x: 0, y: 0, width: 0, height: 10 }.lies_within(bg));
    assert!(!PixelRegion { x: i32::MAX, y: 0, width: i32::MAX, height: 1 }.lies_within(bg));
    // a rectangle on whole pixels that begins in the image stays in it
    for rect in [
        Rect { x1: px(350), y1: px(250), x2: px(450), y2: px(350) },
        Rect { x1: px(-20), y1: px(-20), x2: px(399), y2: px(1) },
        Rect { x1: px(399), y1: px(299), x2: px(900), y2: px(900) },
    ] {
        match clamp_to_image(bg, rect) {
            Some(a) => assert!(area_pixels(a).lies_within(bg)),
            None => panic!("no area"),
        }
    }
    // with fractions, rounding can reach one pixel too far
    let a = clamp_to_image(bg, Rect { x1: 10_500_000, y1: 0, x2: px(400), y2: px(300) });
    match a {
        Some(a) => {
            assert_eq!(area_pixels(a), PixelRegion { x: 11, y: 0, width: 390, height: 300 });
            assert!(!area_pixels(a).lies_within(bg));
        }
        None => panic!("no area"),
    }
}
