use menu_api::check_box::CheckBox;
use menu_api::float_slider::FloatSlider;
use menu_api::line_list::LineList;
use menu_api::outline_box::OutlineBox;
use menu_api::Clicked;
use menu_api::Draw;
use menu_api::DrawCmd;
use menu_api::InBounds;
use menu_api::Menu;
use menu_api::MenuOptions;
use menu_api::Options;
use menu_api::Rect;
use menu_api::Vec4;
use menu_api::Vertex;

fn menu_with_mouse(x: i64, y: i64) -> Menu {
    let mut menu = Menu::new((800, 800), (600, 450));
    menu.mouse_pos = (x, y);
    menu
}

fn plain_options() -> MenuOptions {
    MenuOptions::new(false, false, false, false)
}

#[test]
fn do_toggle_flips_the_cell() {
    let mut cb = CheckBox::new(
        plain_options(),
        Rect::new(Vertex { x: 0, y: 0 }, 10, 10),
        Vec4::new(0, 255, 178, 255),
        false,
        None,
    );
    cb.do_toggle();
    assert!(cb.checked);
    cb.do_toggle();
    assert!(!cb.checked);
}

#[test]
fn checkbox_click_needs_hit_and_latch() {
    let rect = Rect::new(Vertex { x: 100, y: 100 }, 30, 30);
    let mut cb = CheckBox::new(plain_options(), rect, Vec4::new(0, 255, 178, 255), false, None);

    // Pointer inside, no click latch: nothing happens.
    let menu = menu_with_mouse(110, 110);
    assert!(!cb.clicked(&menu));
    assert!(!cb.checked);

    // Pointer inside, click latch set: the cell flips and the click reports.
    let mut menu = menu_with_mouse(110, 110);
    menu.clicked = true;
    assert!(cb.clicked(&menu));
    assert!(cb.checked);

    // Pointer outside, click latch set: nothing happens.
    let mut menu = menu_with_mouse(10, 10);
    menu.clicked = true;
    assert!(!cb.clicked(&menu));
    assert!(cb.checked);
}

#[test]
fn checkbox_draws_checkmark_only_when_set() {
    let rect = Rect::new(Vertex { x: 100, y: 100 }, 30, 30);
    let color = Vec4::new(0, 255, 178, 255);
    let unchecked = CheckBox::new(plain_options(), rect, color, false, None);
    let mut cmds: Vec<DrawCmd> = Vec::new();
    unchecked.draw(&mut cmds);
    assert_eq!(cmds.len(), 1);
    assert_eq!(cmds[0], DrawCmd::FilledRect { rect, color });

    let checked = CheckBox::new(plain_options(), rect, color, true, None);
    let mut cmds: Vec<DrawCmd> = Vec::new();
    checked.draw(&mut cmds);
    assert_eq!(cmds.len(), 2);
    assert_eq!(
        cmds[1],
        DrawCmd::LineStrip {
            points: vec![
                Vertex { x: 106, y: 118 },
                Vertex { x: 115, y: 127 },
                Vertex { x: 128, y: 101 },
            ],
            color: Vec4::new(255, 0, 0, 255),
            thickness: 4,
        }
    );
}

#[test]
fn slider_click_maps_pointer_linearly() {
    let rect = Rect::new(Vertex { x: 100, y: 100 }, 100, 10);
    let mut s = FloatSlider::new(
        plain_options(),
        rect,
        Vec4::new(255, 0, 255, 255),
        10,
        0,
        100,
        None,
    );
    let mut menu = menu_with_mouse(150, 105);
    menu.clicked = true;
    assert!(s.clicked(&menu));
    assert_eq!(s.value, 50);

    // A quarter of the way along the track.
    menu.mouse_pos = (125, 105);
    assert!(s.clicked(&menu));
    assert_eq!(s.value, 25);

    // Without the click latch the value is untouched.
    menu.clicked = false;
    assert!(!s.clicked(&menu));
    assert_eq!(s.value, 25);
}

#[test]
fn slider_click_stays_in_range() {
    let rect = Rect::new(Vertex { x: 0, y: 0 }, 10, 10);
    let mut s = FloatSlider::new(
        plain_options(),
        rect,
        Vec4::new(255, 0, 255, 255),
        -3,
        -5,
        5,
        None,
    );
    let mut menu = menu_with_mouse(9, 5);
    menu.clicked = true;
    assert!(s.clicked(&menu));
    assert!(s.value >= -5 && s.value <= 5);
    assert_eq!(s.value, -5 + 9 * 10 / 10);
}

#[test]
fn slider_draw_marks_the_value() {
    let rect = Rect::new(Vertex { x: 100, y: 100 }, 100, 10);
    let s = FloatSlider::new(
        plain_options(),
        rect,
        Vec4::new(255, 0, 255, 255),
        25,
        0,
        100,
        None,
    );
    let mut cmds: Vec<DrawCmd> = Vec::new();
    s.draw(&mut cmds);
    assert_eq!(cmds.len(), 2);
    assert_eq!(cmds[0], DrawCmd::FilledRect { rect, color: Vec4::new(255, 0, 255, 255) });
    assert_eq!(
        cmds[1],
        DrawCmd::Lines {
            points: vec![Vertex { x: 125, y: 100 }, Vertex { x: 125, y: 110 }],
            color: Vec4::new(255, 0, 0, 255),
            thickness: 4,
        }
    );
}

#[test]
fn outline_box_draws_its_outline() {
    let rect = Rect::new(Vertex { x: 5, y: 6 }, 7, 8);
    let b = OutlineBox::new(plain_options(), rect, Vec4::new(9, 9, 9, 9), 3);
    let mut cmds: Vec<DrawCmd> = Vec::new();
    b.draw(&mut cmds);
    assert_eq!(
        cmds,
        vec![DrawCmd::OutlineRect { rect, color: Vec4::new(9, 9, 9, 9), thickness: 3 }]
    );
}

#[test]
fn line_list_draws_its_segments() {
    let points = vec![
        Vertex { x: 0, y: 0 },
        Vertex { x: 10, y: 10 },
        Vertex { x: 20, y: 0 },
        Vertex { x: 30, y: 10 },
    ];
    let l = LineList::new(plain_options(), points.clone(), Vec4::new(1, 1, 1, 1), 2);
    let mut cmds: Vec<DrawCmd> = Vec::new();
    l.draw(&mut cmds);
    assert_eq!(cmds, vec![DrawCmd::Lines { points, color: Vec4::new(1, 1, 1, 1), thickness: 2 }]);
    assert_eq!(l.get_options(), plain_options());
}

#[test]
fn widgets_hit_test_through_the_trait() {
    let rect = Rect::new(Vertex { x: 100, y: 100 }, 30, 30);
    let cb = CheckBox::new(plain_options(), rect, Vec4::new(0, 255, 178, 255), false, None);
    assert!(cb.in_bounds(&menu_with_mouse(110, 110)));
    assert!(!cb.in_bounds(&menu_with_mouse(100, 110)));
    let ob = OutlineBox::new(plain_options(), rect, Vec4::new(9, 9, 9, 9), 3);
    assert!(ob.in_bounds(&menu_with_mouse(129, 129)));
    assert!(!ob.in_bounds(&menu_with_mouse(130, 129)));
}
