use greatshot::annotation::{hits, text_box};
use greatshot::{annotation_bounds, hit_test, move_annotation, Annotation, Point, Rect, Rgba, UNIT};

fn px(n: i64) -> i64 {
    n * UNIT
}

fn pt(x: i64, y: i64) -> Point {
    Point { x: px(x), y: px(y) }
}

fn red() -> Rgba {
    Rgba { red: 1_000_000, green: 300_000, blue: 300_000, alpha: 1_000_000 }
}

fn rect_annotation(x1: i64, y1: i64, x2: i64, y2: i64) -> Annotation {
    Annotation::Rect {
        rect: Rect { x1: px(x1), y1: px(y1), x2: px(x2), y2: px(y2) },
        color: red(),
        width: px(4),
    }
}

fn bounds_of(a: &Annotation) -> Rect {
    match annotation_bounds(a) {
        Some(r) => r,
        None => panic!("no bounds"),
    }
}

#[test]
fn pen_bounds_are_the_extent_of_the_points() {
    let a = Annotation::Pen {
        points: vec![pt(5, 40), pt(-3, 7), pt(20, 9), pt(8, 8)],
        color: red(),
        width: px(4),
    };
    assert_eq!(bounds_of(&a), Rect { x1: px(-3), y1: px(7), x2: px(20), y2: px(40) });
}

#[test]
fn pen_of_one_point_has_a_degenerate_box() {
    let a = Annotation::Pen { points: vec![pt(5, 6)], color: red(), width: px(4) };
    assert_eq!(bounds_of(&a), Rect { x1: px(5), y1: px(6), x2: px(5), y2: px(6) });
}

#[test]
fn pen_without_points_has_no_bounds() {
    let a = Annotation::Pen { points: vec![], color: red(), width: px(4) };
    assert!(annotation_bounds(&a).is_none());
    assert!(!hits(&a, pt(0, 0)));
}

#[test]
fn rect_and_blur_bounds_are_the_rect_itself() {
    let r = Rect { x1: px(9), y1: px(8), x2: px(1), y2: px(2) };
    let a = Annotation::Rect { rect: r, color: red(), width: px(1) };
    let b = Annotation::Blur { rect: r, pixel_size: 10 };
    assert_eq!(bounds_of(&a), r);
    assert_eq!(bounds_of(&b), r);
}

#[test]
fn line_bounds_span_start_and_end() {
    let a = Annotation::Line {
        start: pt(30, 5),
        end: pt(10, 25),
        color: red(),
        width: px(2),
        arrow: true,
    };
    assert_eq!(bounds_of(&a), Rect { x1: px(30), y1: px(5), x2: px(10), y2: px(25) });
    assert!(hits(&a, pt(11, 6)));
    assert!(!hits(&a, pt(9, 6)));
}

#[test]
fn text_bounds_use_fixed_metrics() {
    let a = Annotation::Text {
        pos: pt(100, 100),
        text: String::from("Text"),
        color: red(),
        size: px(22),
    };
    // 0.6 * 22 * 4 = 52.8 to the right, 22 up, 0.2 * 22 = 4.4 down
    assert_eq!(
        bounds_of(&a),
        Rect { x1: px(100), y1: px(78), x2: 152_800_000, y2: 104_400_000 }
    );
}

#[test]
fn text_bounds_count_bytes() {
    // two characters, five bytes
    let a = Annotation::Text {
        pos: pt(0, 0),
        text: String::from("\u{e9}\u{20ac}"),
        color: red(),
        size: px(10),
    };
    assert_eq!(bounds_of(&a), Rect { x1: 0, y1: px(-10), x2: px(30), y2: px(2) });
}

#[test]
fn empty_text_has_no_width() {
    let a = Annotation::Text { pos: pt(7, 7), text: String::new(), color: red(), size: px(10) };
    assert_eq!(bounds_of(&a), Rect { x1: px(7), y1: px(-3), x2: px(7), y2: px(9) });
}

#[test]
fn text_box_saturates() {
    let r = text_box(Point { x: 0, y: 0 }, i64::MAX, usize::MAX);
    assert_eq!(r.x2, i64::MAX);
    assert_eq!(r.y1, -i64::MAX);
    let r = text_box(Point { x: 0, y: 0 }, i64::MIN, usize::MAX);
    assert_eq!(r.x2, i64::MIN);
    assert_eq!(r.y1, i64::MAX);
    let r = text_box(Point { x: 0, y: 0 }, -7, 1);
    // floor(-21 / 5) = -5, floor(-7 / 5) = -2
    assert_eq!(r, Rect { x1: 0, y1: 7, x2: -5, y2: -2 });
}

#[test]
fn hit_test_topmost_wins() {
    let annotations = vec![rect_annotation(10, 10, 50, 50), rect_annotation(10, 10, 50, 50)];
    assert_eq!(hit_test(&annotations, pt(30, 30)), Some(1));
}

#[test]
fn hit_test_picks_the_last_of_those_hit() {
    let annotations = vec![
        rect_annotation(0, 0, 100, 100),
        rect_annotation(20, 20, 40, 40),
        rect_annotation(200, 200, 300, 300),
    ];
    assert_eq!(hit_test(&annotations, pt(30, 30)), Some(1));
    assert_eq!(hit_test(&annotations, pt(90, 90)), Some(0));
    assert_eq!(hit_test(&annotations, pt(250, 250)), Some(2));
    assert_eq!(hit_test(&annotations, pt(150, 150)), None);
}

#[test]
fn hit_test_on_nothing_finds_nothing() {
    let annotations: Vec<Annotation> = Vec::new();
    assert_eq!(hit_test(&annotations, pt(0, 0)), None);
}

#[test]
fn hit_test_tests_the_box_not_the_shape() {
    // a diagonal line is hit far off the line itself
    let annotations = vec![Annotation::Line {
        start: pt(0, 0),
        end: pt(100, 100),
        color: red(),
        width: px(1),
        arrow: false,
    }];
    assert_eq!(hit_test(&annotations, pt(90, 10)), Some(0));
    assert_eq!(hit_test(&annotations, pt(100, 100)), Some(0));
    assert_eq!(hit_test(&annotations, pt(101, 100)), None);
}

#[test]
fn hit_test_skips_strokes_without_points() {
    let annotations = vec![
        rect_annotation(0, 0, 10, 10),
        Annotation::Pen { points: vec![], color: red(), width: px(1) },
    ];
    assert_eq!(hit_test(&annotations, pt(5, 5)), Some(0));
}

#[test]
fn move_shifts_every_kind() {
    let mut a = Annotation::Pen { points: vec![pt(1, 2), pt(3, 4)], color: red(), width: px(4) };
    move_annotation(&mut a, px(10), px(-5));
    match &a {
        Annotation::Pen { points, color, width } => {
            assert_eq!(points, &vec![pt(11, -3), pt(13, -1)]);
            assert_eq!(*color, red());
            assert_eq!(*width, px(4));
        }
        _ => panic!("kind changed"),
    }

    let mut a = rect_annotation(1, 2, 3, 4);
    move_annotation(&mut a, px(1), px(1));
    assert_eq!(bounds_of(&a), Rect { x1: px(2), y1: px(3), x2: px(4), y2: px(5) });

    let mut a = Annotation::Line {
        start: pt(0, 0),
        end: pt(5, 5),
        color: red(),
        width: px(2),
        arrow: true,
    };
    move_annotation(&mut a, px(-2), px(3));
    match &a {
        Annotation::Line { start, end, arrow, .. } => {
            assert_eq!(*start, pt(-2, 3));
            assert_eq!(*end, pt(3, 8));
            assert!(*arrow);
        }
        _ => panic!("kind changed"),
    }

    let mut a = Annotation::Text {
        pos: pt(50, 50),
        text: String::from("hello"),
        color: red(),
        size: px(22),
    };
    move_annotation(&mut a, px(-20), px(-20));
    match &a {
        Annotation::Text { pos, text, size, .. } => {
            assert_eq!(*pos, pt(30, 30));
            assert_eq!(text, "hello");
            assert_eq!(*size, px(22));
        }
        _ => panic!("kind changed"),
    }

    let mut a = Annotation::Blur {
        rect: Rect { x1: 0, y1: 0, x2: px(10), y2: px(10) },
        pixel_size: 7,
    };
    move_annotation(&mut a, px(5), px(6));
    match &a {
        Annotation::Blur { rect, pixel_size } => {
            assert_eq!(*rect, Rect { x1: px(5), y1: px(6), x2: px(15), y2: px(16) });
            assert_eq!(*pixel_size, 7);
        }
        _ => panic!("kind changed"),
    }
}

#[test]
fn move_saturates_instead_of_overflowing() {
    let mut a = Annotation::Rect {
        rect: Rect { x1: i64::MAX - 1, y1: i64::MIN + 1, x2: 0, y2: 0 },
        color: red(),
        width: px(1),
    };
    move_annotation(&mut a, 5, -5);
    assert_eq!(bounds_of(&a), Rect { x1: i64::MAX, y1: i64::MIN, x2: 5, y2: -5 });
}

#[test]
fn clone_copies_the_value() {
    let a = Annotation::Pen { points: vec![pt(1, 2), pt(3, 4)], color: red(), width: px(4) };
    let mut b = a.clone();
    move_annotation(&mut b, px(1), px(1));
    assert_eq!(bounds_of(&a), Rect { x1: px(1), y1: px(2), x2: px(3), y2: px(4) });
    assert_eq!(bounds_of(&b), Rect { x1: px(2), y1: px(3), x2: px(4), y2: px(5) });
    let t = Annotation::Text { pos: pt(0, 0), text: String::from("abc"), color: red(), size: 5 };
    match t.clone() {
        Annotation::Text { text, size, .. } => {
            assert_eq!(text, "abc");
            assert_eq!(size, 5);
        }
        _ => panic!("kind changed"),
    }
}
