use greatshot::render::{draw_annotation, draw_arrow_head, draw_pixelate};
use greatshot::{
    draw, render_to_pixbuf, Annotation, Area, Background, EditorState, PaintOp, PixelRegion,
    Point, Rect, Rgba, Tool, UNIT,
};

fn px(n: i64) -> i64 {
    n * UNIT
}

fn pt(x: i64, y: i64) -> Point {
    Point { x: px(x), y: px(y) }
}

fn red() -> Rgba {
    Rgba { red: 1_000_000, green: 300_000, blue: 300_000, alpha: 1_000_000 }
}

fn white_half() -> Rgba {
    Rgba { red: 1_000_000, green: 1_000_000, blue: 1_000_000, alpha: 500_000 }
}

fn pale_blue() -> Rgba {
    Rgba { red: 800_000, green: 800_000, blue: 1_000_000, alpha: 600_000 }
}

fn ops_of(a: &Annotation, bg: Option<Background>) -> Vec<PaintOp> {
    let mut ops = Vec::new();
    draw_annotation(&mut ops, a, bg);
    ops
}

fn image() -> Background {
    Background { width: 400, height: 300 }
}

#[test]
fn a_stroke_needs_two_points() {
    let none = Annotation::Pen { points: vec![], color: red(), width: px(4) };
    let one = Annotation::Pen { points: vec![pt(1, 1)], color: red(), width: px(4) };
    let two = Annotation::Pen { points: vec![pt(1, 1), pt(2, 3)], color: red(), width: px(4) };
    assert_eq!(ops_of(&none, Some(image())), vec![]);
    assert_eq!(ops_of(&one, Some(image())), vec![]);
    assert_eq!(
        ops_of(&two, None),
        vec![PaintOp::Polyline { points: vec![pt(1, 1), pt(2, 3)], color: red(), width: px(4) }]
    );
}

#[test]
fn a_rect_is_outlined_in_normal_form() {
    let a = Annotation::Rect {
        rect: Rect { x1: px(30), y1: px(5), x2: px(10), y2: px(25) },
        color: red(),
        width: px(2),
    };
    assert_eq!(
        ops_of(&a, None),
        vec![PaintOp::Outline {
            area: Area { x: px(10), y: px(5), w: px(20), h: px(20) },
            color: red(),
            width: px(2),
        }]
    );
}

#[test]
fn a_line_without_arrow_is_one_segment() {
    let a = Annotation::Line {
        start: pt(0, 0),
        end: pt(100, 0),
        color: red(),
        width: px(4),
        arrow: false,
    };
    assert_eq!(
        ops_of(&a, None),
        vec![PaintOp::Polyline { points: vec![pt(0, 0), pt(100, 0)], color: red(), width: px(4) }]
    );
}

#[test]
fn an_arrow_gets_a_head_after_its_shaft() {
    let a = Annotation::Line {
        start: pt(0, 0),
        end: pt(100, 0),
        color: red(),
        width: px(4),
        arrow: true,
    };
    // 40 long, 24 across
    assert_eq!(
        ops_of(&a, None),
        vec![
            PaintOp::Polyline { points: vec![pt(0, 0), pt(100, 0)], color: red(), width: px(4) },
            PaintOp::Triangle { a: pt(100, 0), b: pt(60, 12), c: pt(60, -12), color: red() },
        ]
    );
}

#[test]
fn arrow_head_on_a_slanted_line() {
    let mut ops = Vec::new();
    draw_arrow_head(&mut ops, pt(0, 0), pt(30, 40), px(1), red());
    // direction (0.6, 0.8); 10 long, 6 across, for a thin line
    assert_eq!(
        ops,
        vec![PaintOp::Triangle {
            a: pt(30, 40),
            b: Point { x: 21_600_000, y: 33_800_000 },
            c: Point { x: 26_400_000, y: 30_200_000 },
            color: red(),
        }]
    );
}

#[test]
fn arrow_head_grows_with_the_line_width() {
    let mut ops = Vec::new();
    draw_arrow_head(&mut ops, pt(0, 100), pt(0, 0), 500_000, red());
    draw_arrow_head(&mut ops, pt(0, 100), pt(0, 0), px(2), red());
    assert_eq!(
        ops,
        vec![
            PaintOp::Triangle { a: pt(0, 0), b: pt(3, 10), c: pt(-3, 10), color: red() },
            PaintOp::Triangle { a: pt(0, 0), b: pt(6, 20), c: pt(-6, 20), color: red() },
        ]
    );
}

#[test]
fn a_line_without_length_gets_no_head() {
    let mut ops = vec![PaintOp::Image];
    draw_arrow_head(&mut ops, pt(5, 5), pt(5, 5), px(4), red());
    // a tenth of a pixel is still too short
    draw_arrow_head(&mut ops, pt(5, 5), Point { x: px(5) + 100_000, y: px(5) }, px(4), red());
    assert_eq!(ops, vec![PaintOp::Image]);
    draw_arrow_head(&mut ops, pt(5, 5), Point { x: px(5) + 100_001, y: px(5) }, px(4), red());
    assert_eq!(ops.len(), 2);
}

#[test]
fn a_line_barely_longer_than_a_tenth_of_a_pixel_gets_a_head() {
    // 0.1 across and a millionth down: longer than a tenth by less than
    // a scalar unit
    let mut ops = Vec::new();
    draw_arrow_head(&mut ops, Point { x: 0, y: 0 }, Point { x: 100_000, y: 1 }, px(1), red());
    // 10 long and 6 across, along (100000, 1) / 100000
    assert_eq!(
        ops,
        vec![PaintOp::Triangle {
            a: Point { x: 100_000, y: 1 },
            b: Point { x: 100_000 - 10_000_000 - 30, y: 1 - 100 + 3_000_000 },
            c: Point { x: 100_000 - 10_000_000 + 30, y: 1 - 100 - 3_000_000 },
            color: red(),
        }]
    );
    // the same both ways round, and along the other axis
    let mut ops = Vec::new();
    draw_arrow_head(&mut ops, Point { x: 100_000, y: 1 }, Point { x: 0, y: 0 }, px(1), red());
    draw_arrow_head(&mut ops, Point { x: 0, y: 0 }, Point { x: -1, y: -100_000 }, px(1), red());
    draw_arrow_head(&mut ops, Point { x: 0, y: 0 }, Point { x: 70_711, y: 70_711 }, px(1), red());
    assert_eq!(ops.len(), 3);
    // 70710 each way is just short of a tenth
    let mut ops = Vec::new();
    draw_arrow_head(&mut ops, Point { x: 0, y: 0 }, Point { x: 70_710, y: 70_710 }, px(1), red());
    draw_arrow_head(&mut ops, Point { x: 0, y: 0 }, Point { x: 60_000, y: 80_000 }, px(1), red());
    assert_eq!(ops, vec![]);
}

#[test]
fn an_arrow_barely_longer_than_a_tenth_of_a_pixel_is_painted_with_its_head() {
    let a = Annotation::Line {
        start: Point { x: 0, y: 0 },
        end: Point { x: 100_000, y: 1 },
        color: red(),
        width: px(1),
        arrow: true,
    };
    let ops = ops_of(&a, None);
    assert_eq!(ops.len(), 2);
    assert!(matches!(ops[0], PaintOp::Polyline { .. }));
    assert!(matches!(ops[1], PaintOp::Triangle { .. }));
    let plain = Annotation::Line {
        start: Point { x: 0, y: 0 },
        end: Point { x: 100_000, y: 1 },
        color: red(),
        width: px(1),
        arrow: false,
    };
    assert_eq!(ops_of(&plain, None).len(), 1);
}

#[test]
fn arrow_head_at_the_limits_of_the_range() {
    let mut ops = Vec::new();
    draw_arrow_head(
        &mut ops,
        Point { x: i64::MIN, y: i64::MIN },
        Point { x: i64::MAX, y: i64::MAX },
        i64::MAX,
        red(),
    );
    assert_eq!(ops.len(), 1);
    match &ops[0] {
        PaintOp::Triangle { a, .. } => assert_eq!(*a, Point { x: i64::MAX, y: i64::MAX }),
        _ => panic!("not a triangle"),
    }
}

#[test]
fn text_is_painted_as_it_is() {
    let a = Annotation::Text {
        pos: pt(10, 20),
        text: String::from("Text"),
        color: red(),
        size: px(22),
    };
    assert_eq!(
        ops_of(&a, None),
        vec![PaintOp::Text {
            pos: pt(10, 20),
            text: String::from("Text"),
            color: red(),
            size: px(22),
        }]
    );
}

#[test]
fn pixelation_needs_an_image() {
    let a = Annotation::Blur {
        rect: Rect { x1: px(10), y1: px(10), x2: px(110), y2: px(60) },
        pixel_size: 10,
    };
    assert_eq!(ops_of(&a, None), vec![]);
    assert_eq!(
        ops_of(&a, Some(image())),
        vec![PaintOp::Pixelate {
            area: Area { x: px(10), y: px(10), w: px(100), h: px(50) },
            source: PixelRegion { x: 10, y: 10, width: 100, height: 50 },
            grid_width: 10,
            grid_height: 5,
        }]
    );
}

#[test]
fn pixelation_keeps_the_size_of_the_clamped_region() {
    for pixel_size in [1, 3, 10, 64, 1000] {
        let mut ops = Vec::new();
        draw_pixelate(
            &mut ops,
            Rect { x1: px(450), y1: px(350), x2: px(350), y2: px(250) },
            pixel_size,
            image(),
        );
        assert_eq!(ops.len(), 1);
        match &ops[0] {
            PaintOp::Pixelate { area, source, grid_width, grid_height } => {
                assert_eq!(*area, Area { x: px(350), y: px(250), w: px(50), h: px(50) });
                assert_eq!(*source, PixelRegion { x: 350, y: 250, width: 50, height: 50 });
                assert!(*grid_width >= 1 && *grid_width <= 50);
                assert_eq!(grid_width, grid_height);
            }
            _ => panic!("not a pixelation"),
        }
    }
}

#[test]
fn pixelation_grid_is_rounded_and_at_least_one() {
    let grid = |w: i64, h: i64, pixel_size: i32| {
        let mut ops = Vec::new();
        draw_pixelate(&mut ops, Rect { x1: 0, y1: 0, x2: w, y2: h }, pixel_size, image());
        match ops.pop() {
            Some(PaintOp::Pixelate { grid_width, grid_height, .. }) => (grid_width, grid_height),
            _ => panic!("not a pixelation"),
        }
    };
    assert_eq!(grid(px(100), px(50), 10), (10, 5));
    // 14.9 and 15.0: 1.49 rounds to 1, 1.5 rounds to 2
    assert_eq!(grid(14_900_000, px(15), 10), (1, 2));
    // smaller than one block
    assert_eq!(grid(px(4), px(3), 10), (1, 1));
    assert_eq!(grid(px(100), px(50), 1), (100, 50));
}

#[test]
fn pixelation_of_less_than_a_pixel_paints_nothing() {
    let mut ops = Vec::new();
    draw_pixelate(&mut ops, Rect { x1: px(10), y1: px(10), x2: px(10), y2: px(60) }, 10, image());
    draw_pixelate(&mut ops, Rect { x1: px(10), y1: px(10), x2: px(60), y2: px(11) - 1 }, 10, image());
    assert_eq!(ops, vec![]);
}

#[test]
fn an_empty_session_paints_nothing() {
    let mut s = EditorState::new();
    s.set_viewport(640, 480);
    let frame = draw(&s);
    assert_eq!((frame.width, frame.height), (640, 480));
    assert_eq!((frame.scale, frame.offset_x, frame.offset_y), (UNIT, 0, 0));
    assert_eq!(frame.ops, vec![]);
    assert_eq!(render_to_pixbuf(&s), None);
}

#[test]
fn the_scene_is_painted_back_to_front() {
    let mut s = EditorState::new();
    s.set_background(image());
    s.set_viewport(1000, 600);
    s.push_annotation(Annotation::Rect {
        rect: Rect { x1: px(10), y1: px(10), x2: px(50), y2: px(50) },
        color: red(),
        width: px(2),
    });
    s.push_annotation(Annotation::Pen { points: vec![pt(1, 1)], color: red(), width: px(4) });
    s.push_annotation(Annotation::Line {
        start: pt(0, 0),
        end: pt(100, 0),
        color: red(),
        width: px(4),
        arrow: true,
    });
    s.draft = Some(Annotation::Pen {
        points: vec![pt(5, 5), pt(6, 6)],
        color: red(),
        width: px(4),
    });
    s.crop_rect = Some(Rect { x1: px(300), y1: px(200), x2: px(100), y2: px(100) });
    s.selected = Some(2);
    let frame = draw(&s);
    assert_eq!((frame.width, frame.height), (1000, 600));
    assert_eq!((frame.scale, frame.offset_x, frame.offset_y), (px(2), px(100), 0));
    assert_eq!(
        frame.ops,
        vec![
            PaintOp::Image,
            PaintOp::Outline {
                area: Area { x: px(10), y: px(10), w: px(40), h: px(40) },
                color: red(),
                width: px(2),
            },
            PaintOp::Polyline { points: vec![pt(0, 0), pt(100, 0)], color: red(), width: px(4) },
            PaintOp::Triangle { a: pt(100, 0), b: pt(60, 12), c: pt(60, -12), color: red() },
            PaintOp::Polyline { points: vec![pt(5, 5), pt(6, 6)], color: red(), width: px(4) },
            PaintOp::Outline {
                area: Area { x: px(100), y: px(100), w: px(200), h: px(100) },
                color: white_half(),
                width: px(1),
            },
            PaintOp::Outline {
                area: Area { x: 0, y: 0, w: px(100), h: 0 },
                color: pale_blue(),
                width: px(1),
            },
        ]
    );
}

#[test]
fn a_selected_stroke_without_points_gets_no_frame() {
    let mut s = EditorState::new();
    s.push_annotation(Annotation::Pen { points: vec![], color: red(), width: px(4) });
    s.selected = Some(0);
    assert_eq!(draw(&s).ops, vec![]);
}

#[test]
fn the_export_ignores_zoom_and_viewport() {
    let mut s = EditorState::new();
    s.set_background(image());
    s.set_viewport(1000, 600);
    s.set_zoom(px(3));
    s.set_tool(Tool::Blur);
    s.push_annotation(Annotation::Blur {
        rect: Rect { x1: px(10), y1: px(10), x2: px(110), y2: px(60) },
        pixel_size: 10,
    });
    let shown = draw(&s);
    assert_eq!((shown.scale, shown.offset_x, shown.offset_y), (px(3), 0, 0));
    let flat = match render_to_pixbuf(&s) {
        Some(frame) => frame,
        None => panic!("nothing to export"),
    };
    assert_eq!((flat.width, flat.height), (400, 300));
    assert_eq!((flat.scale, flat.offset_x, flat.offset_y), (UNIT, 0, 0));
    assert_eq!(flat.ops, shown.ops);
    assert_eq!(
        flat.ops,
        vec![
            PaintOp::Image,
            PaintOp::Pixelate {
                area: Area { x: px(10), y: px(10), w: px(100), h: px(50) },
                source: PixelRegion { x: 10, y: 10, width: 100, height: 50 },
                grid_width: 10,
                grid_height: 5,
            },
        ]
    );
}

#[test]
fn pixelation_follows_a_crop() {
    let mut s = EditorState::new();
    s.set_background(image());
    s.push_annotation(Annotation::Blur {
        rect: Rect { x1: px(50), y1: px(50), x2: px(150), y2: px(150) },
        pixel_size: 10,
    });
    let region = greatshot::apply_crop(&mut s, Rect { x1: px(20), y1: px(20), x2: px(120), y2: px(120) });
    assert_eq!(region, Some(PixelRegion { x: 20, y: 20, width: 100, height: 100 }));
    // the region is rebased to (30, 30) and cut at the new border
    assert_eq!(
        draw(&s).ops,
        vec![
            PaintOp::Image,
            PaintOp::Pixelate {
                area: Area { x: px(30), y: px(30), w: px(70), h: px(70) },
                source: PixelRegion { x: 30, y: 30, width: 70, height: 70 },
                grid_width: 7,
                grid_height: 7,
            },
        ]
    );
}
