use menu_api::label::Direction;
use menu_api::label::Label;
use menu_api::Draw;
use menu_api::DrawCmd;
use menu_api::Menu;
use menu_api::MenuOptions;
use menu_api::Rect;
use menu_api::TargetRect;
use menu_api::Vec4;
use menu_api::Vertex;

fn menu_with_mouse(x: i64, y: i64) -> Menu {
    let mut menu = Menu::new((800, 800), (600, 450));
    menu.mouse_pos = (x, y);
    menu
}

#[test]
fn hit_test_inside() {
    let r = Rect::new(Vertex { x: 10, y: 20 }, 30, 40);
    assert!(r.in_bounds(&menu_with_mouse(11, 21)));
    assert!(r.in_bounds(&menu_with_mouse(25, 40)));
    assert!(r.in_bounds(&menu_with_mouse(39, 59)));
}

#[test]
fn hit_test_excludes_boundary() {
    let r = Rect::new(Vertex { x: 10, y: 20 }, 30, 40);
    // Left, right, top and bottom edges are all excluded.
    assert!(!r.in_bounds(&menu_with_mouse(10, 30)));
    assert!(!r.in_bounds(&menu_with_mouse(40, 30)));
    assert!(!r.in_bounds(&menu_with_mouse(20, 20)));
    assert!(!r.in_bounds(&menu_with_mouse(20, 60)));
    // Corners too.
    assert!(!r.in_bounds(&menu_with_mouse(10, 20)));
    assert!(!r.in_bounds(&menu_with_mouse(40, 60)));
}

#[test]
fn hit_test_outside() {
    let r = Rect::new(Vertex { x: 10, y: 20 }, 30, 40);
    assert!(!r.in_bounds(&menu_with_mouse(9, 30)));
    assert!(!r.in_bounds(&menu_with_mouse(41, 30)));
    assert!(!r.in_bounds(&menu_with_mouse(-20, -20)));
}

#[test]
fn degenerate_rect_hits_nothing() {
    let r = Rect::new(Vertex { x: 10, y: 20 }, 0, 0);
    assert!(!r.in_bounds(&menu_with_mouse(10, 20)));
    assert!(!r.in_bounds(&menu_with_mouse(11, 21)));
}

#[test]
fn hover_emits_enlarged_outline_when_hit() {
    let r = Rect::new(Vertex { x: 10, y: 10 }, 20, 20);
    let mut cmds: Vec<DrawCmd> = Vec::new();
    r.is_hovering(&menu_with_mouse(15, 15), &mut cmds);
    assert_eq!(cmds.len(), 1);
    assert_eq!(
        cmds[0],
        DrawCmd::OutlineRect {
            rect: Rect::new(Vertex { x: 8, y: 8 }, 24, 24),
            color: Vec4::new(255, 0, 0, 255),
            thickness: 4,
        }
    );
}

#[test]
fn hover_emits_nothing_when_missed() {
    let r = Rect::new(Vertex { x: 10, y: 10 }, 20, 20);
    let mut cmds: Vec<DrawCmd> = Vec::new();
    r.is_hovering(&menu_with_mouse(50, 50), &mut cmds);
    assert!(cmds.is_empty());
}

#[test]
fn overlay_placement_default() {
    let ((left, top), (width, height)) = menu_api::overlay_placement(None);
    assert_eq!((left, top), (100, 100));
    assert_eq!((width, height), (685, 660));
}

#[test]
fn overlay_placement_from_target() {
    let target = TargetRect { left: 0, top: 0, right: 1000, bottom: 900 };
    let ((left, top), (width, height)) = menu_api::overlay_placement(Some(target));
    assert_eq!((left, top), (0, 0));
    assert_eq!((width, height), (985, 860));
}

#[test]
fn label_anchor_positions() {
    let host = Rect::new(Vertex { x: 100, y: 100 }, 200, 100);
    let cases = [
        (Direction::Top, Vertex { x: 100, y: 50 }),
        (Direction::Left, Vertex { x: -100, y: 150 }),
        (Direction::Right, Vertex { x: 300, y: 150 }),
        (Direction::Bottom, Vertex { x: 100, y: 250 }),
    ];
    for (direction, expected) in cases {
        let label = Label::new(Vec4::new(255, 255, 0, 255), direction, "caption", 20, 500);
        let mut cmds: Vec<DrawCmd> = Vec::new();
        label.draw(&host, &mut cmds);
        assert_eq!(cmds.len(), 1);
        match &cmds[0] {
            DrawCmd::Text { top_left, color, scale, text } => {
                assert_eq!(*top_left, expected);
                assert_eq!(*color, Vec4::new(255, 255, 0, 255));
                assert_eq!(*scale, 20);
                assert_eq!(text.as_str(), "caption");
            }
            other => panic!("expected a text command, got {:?}", other),
        }
    }
}

#[test]
fn filled_box_draws_caption_after_rect() {
    let label = Label::new(Vec4::new(255, 0, 0, 255), Direction::Top, "box", 20, 100);
    let b = menu_api::filled_box::FilledBox::new(
        MenuOptions::new(false, false, false, false),
        Rect::new(Vertex { x: 50, y: 50 }, 40, 10),
        Vec4::new(1, 2, 3, 4),
        Some(label),
    );
    let mut cmds: Vec<DrawCmd> = Vec::new();
    b.draw(&mut cmds);
    assert_eq!(cmds.len(), 2);
    assert_eq!(
        cmds[0],
        DrawCmd::FilledRect {
            rect: Rect::new(Vertex { x: 50, y: 50 }, 40, 10),
            color: Vec4::new(1, 2, 3, 4),
        }
    );
    match &cmds[1] {
        // dist_scale 100 of height 10 is one pixel above the host.
        DrawCmd::Text { top_left, .. } => assert_eq!(*top_left, Vertex { x: 50, y: 49 }),
        other => panic!("expected a text command, got {:?}", other),
    }
}
