use menu_api::check_box::CheckBox;
use menu_api::filled_box::FilledBox;
use menu_api::DrawCmd;
use menu_api::Menu;
use menu_api::MenuObject;
use menu_api::MenuOptions;
use menu_api::PointerAction;
use menu_api::Rect;
use menu_api::Vec4;
use menu_api::Vertex;
use menu_api::WindowStyle;

fn checkbox_at(x: i64, y: i64, options: MenuOptions) -> CheckBox {
    CheckBox::new(
        options,
        Rect::new(Vertex { x, y }, 30, 30),
        Vec4::new(0, 255, 178, 255),
        false,
        None,
    )
}

fn checkbox_rect(menu: &Menu, index: usize) -> Rect {
    match &menu.objects[index] {
        MenuObject::CheckBox(b) => b.rect,
        other => panic!("expected a checkbox, got {:?}", other),
    }
}

fn checkbox_value(menu: &Menu, index: usize) -> bool {
    match &menu.objects[index] {
        MenuObject::CheckBox(b) => b.checked,
        other => panic!("expected a checkbox, got {:?}", other),
    }
}

#[test]
fn frame_starts_with_clear_and_base() {
    let mut menu = Menu::new((800, 800), (600, 450));
    let cmds = menu.draw_menu(false, false);
    assert_eq!(cmds[0], DrawCmd::Clear { color: Vec4::new(0, 0, 0, 0) });
    assert_eq!(
        cmds[1],
        DrawCmd::FilledRect {
            rect: Rect::new(Vertex { x: 100, y: 100 }, 600, 450),
            color: Vec4::new(128, 128, 128, 255),
        }
    );
}

#[test]
fn check_clicks_click_latch_is_edge_triggered() {
    let mut menu = Menu::new((800, 800), (600, 450));
    menu.check_clicks(true, false);
    assert!(menu.clicked);
    menu.check_clicks(false, false);
    assert!(!menu.clicked);
}

#[test]
fn check_clicks_drag_latch_snapshots_pointer_on_rising_edge() {
    let mut menu = Menu::new((800, 800), (600, 450));
    menu.mouse_pos = (7, 9);
    menu.check_clicks(false, true);
    assert!(menu.dragging);
    assert_eq!(menu.cached_mouse_pos, (7, 9));
    // While the latch stays set the snapshot is kept.
    menu.mouse_pos = (20, 21);
    menu.check_clicks(false, true);
    assert_eq!(menu.cached_mouse_pos, (7, 9));
    menu.check_clicks(false, false);
    assert!(!menu.dragging);
}

#[test]
fn checkbox_toggles_once_per_clicked_frame() {
    let mut menu = Menu::new((800, 800), (600, 450));
    menu.add_to_draw_list(MenuObject::CheckBox(checkbox_at(
        115,
        115,
        MenuOptions::new(false, false, false, false),
    )));
    menu.mouse_pos = (120, 120);

    menu.draw_menu(true, false);
    assert!(checkbox_value(&menu, 0));
    menu.draw_menu(true, false);
    assert!(!checkbox_value(&menu, 0));
    // Without the click latch the cell is never mutated.
    menu.draw_menu(false, false);
    assert!(!checkbox_value(&menu, 0));
}

#[test]
fn checkbox_outside_pointer_does_not_toggle() {
    let mut menu = Menu::new((800, 800), (600, 450));
    menu.add_to_draw_list(MenuObject::CheckBox(checkbox_at(
        115,
        115,
        MenuOptions::new(false, false, false, false),
    )));
    menu.mouse_pos = (300, 300);
    menu.draw_menu(true, false);
    assert!(!checkbox_value(&menu, 0));
}

#[test]
fn drag_within_bounds_moves_by_exact_delta() {
    let mut menu = Menu::new((800, 800), (600, 450));
    menu.add_to_draw_list(MenuObject::CheckBox(checkbox_at(
        200,
        200,
        MenuOptions::new(true, false, false, false),
    )));
    // Press the drag button with the pointer over the child.
    menu.mouse_pos = (210, 210);
    menu.draw_menu(false, true);
    // Move the pointer while dragging.
    menu.mouse_pos = (225, 218);
    menu.draw_menu(false, true);
    assert_eq!(checkbox_rect(&menu, 0), Rect::new(Vertex { x: 215, y: 208 }, 30, 30));
}

#[test]
fn drag_out_of_bounds_leaves_child_unchanged() {
    let mut menu = Menu::new((800, 800), (600, 450));
    // The child sits one pixel inside the base panel's corner.
    menu.add_to_draw_list(MenuObject::CheckBox(checkbox_at(
        101,
        101,
        MenuOptions::new(true, false, false, false),
    )));
    menu.mouse_pos = (110, 110);
    menu.draw_menu(false, true);
    // A move of (-5, -5) would put the child's corner at (96, 96), outside
    // the panel: the rectangle must not change.
    menu.mouse_pos = (105, 105);
    menu.draw_menu(false, true);
    assert_eq!(checkbox_rect(&menu, 0), Rect::new(Vertex { x: 101, y: 101 }, 30, 30));
}

#[test]
fn base_does_not_move_while_child_is_hit() {
    let mut menu = Menu::new((800, 800), (600, 450));
    menu.add_to_draw_list(MenuObject::CheckBox(checkbox_at(
        101,
        101,
        MenuOptions::new(true, false, false, false),
    )));
    // The pointer is over both the child and the base panel.
    menu.mouse_pos = (110, 110);
    menu.draw_menu(false, true);
    menu.mouse_pos = (105, 105);
    menu.draw_menu(false, true);
    assert_eq!(menu.base.rect, Rect::new(Vertex { x: 100, y: 100 }, 600, 450));
}

#[test]
fn base_drag_translates_base_and_moveable_children() {
    // The scenario: base panel at (100,100,600,450), checkbox at
    // (115,115,30,30) flagged moveable; dragging the base by (+20,+15) with
    // no child under the pointer moves both by the same delta.
    let mut menu = Menu::new((800, 800), (600, 450));
    menu.add_to_draw_list(MenuObject::CheckBox(checkbox_at(
        115,
        115,
        MenuOptions::new(true, true, false, true),
    )));
    menu.mouse_pos = (400, 400);
    menu.draw_menu(false, true);
    menu.mouse_pos = (420, 415);
    menu.draw_menu(false, true);
    assert_eq!(menu.base.rect, Rect::new(Vertex { x: 120, y: 115 }, 600, 450));
    assert_eq!(checkbox_rect(&menu, 0), Rect::new(Vertex { x: 135, y: 130 }, 30, 30));
}

#[test]
fn base_drag_leaves_unmoveable_children_behind() {
    let mut menu = Menu::new((800, 800), (600, 450));
    menu.add_to_draw_list(MenuObject::CheckBox(checkbox_at(
        115,
        115,
        MenuOptions::new(false, false, false, false),
    )));
    menu.mouse_pos = (400, 400);
    menu.draw_menu(false, true);
    menu.mouse_pos = (420, 415);
    menu.draw_menu(false, true);
    assert_eq!(menu.base.rect, Rect::new(Vertex { x: 120, y: 115 }, 600, 450));
    assert_eq!(checkbox_rect(&menu, 0), Rect::new(Vertex { x: 115, y: 115 }, 30, 30));
}

#[test]
fn pending_delete_widget_is_drawn_once_then_evicted() {
    let mut menu = Menu::new((800, 800), (600, 450));
    let doomed_rect = Rect::new(Vertex { x: 150, y: 150 }, 40, 40);
    let doomed_color = Vec4::new(7, 7, 7, 7);
    menu.add_to_draw_list(MenuObject::FilledBox(FilledBox::new(
        MenuOptions::new(false, false, true, false),
        doomed_rect,
        doomed_color,
        None,
    )));
    assert_eq!(menu.objects.len(), 1);
    let cmds = menu.draw_menu(false, false);
    // Drawn in the frame that evicts it ...
    assert!(cmds.contains(&DrawCmd::FilledRect { rect: doomed_rect, color: doomed_color }));
    // ... and gone from the scene afterwards.
    assert_eq!(menu.objects.len(), 0);
    let cmds = menu.draw_menu(false, false);
    assert!(!cmds.contains(&DrawCmd::FilledRect { rect: doomed_rect, color: doomed_color }));
}

#[test]
fn eviction_removes_all_flagged_widgets_and_keeps_order() {
    let mut menu = Menu::new((800, 800), (600, 450));
    let keep_a = Rect::new(Vertex { x: 110, y: 110 }, 10, 10);
    let drop_b = Rect::new(Vertex { x: 130, y: 110 }, 10, 10);
    let keep_c = Rect::new(Vertex { x: 150, y: 110 }, 10, 10);
    let drop_d = Rect::new(Vertex { x: 170, y: 110 }, 10, 10);
    for (rect, delete) in [(keep_a, false), (drop_b, true), (keep_c, false), (drop_d, true)] {
        menu.add_to_draw_list(MenuObject::FilledBox(FilledBox::new(
            MenuOptions::new(false, false, delete, false),
            rect,
            Vec4::new(1, 1, 1, 1),
            None,
        )));
    }
    menu.draw_menu(false, false);
    assert_eq!(menu.objects.len(), 2);
    let rect_of = |o: &MenuObject| match o {
        MenuObject::FilledBox(b) => b.rect,
        other => panic!("expected a filled box, got {:?}", other),
    };
    assert_eq!(rect_of(&menu.objects[0]), keep_a);
    assert_eq!(rect_of(&menu.objects[1]), keep_c);
}

#[test]
fn hover_highlight_appears_for_hovered_child() {
    let mut menu = Menu::new((800, 800), (600, 450));
    menu.add_to_draw_list(MenuObject::CheckBox(checkbox_at(
        115,
        115,
        MenuOptions::new(false, true, false, false),
    )));
    menu.mouse_pos = (120, 120);
    let cmds = menu.draw_menu(false, false);
    assert!(cmds.contains(&DrawCmd::OutlineRect {
        rect: Rect::new(Vertex { x: 113, y: 113 }, 34, 34),
        color: Vec4::new(255, 0, 0, 255),
        thickness: 4,
    }));
}

#[test]
fn frame_command_order_is_clear_base_widget_highlight() {
    let mut menu = Menu::new((800, 800), (600, 450));
    menu.add_to_draw_list(MenuObject::CheckBox(checkbox_at(
        115,
        115,
        MenuOptions::new(false, true, false, false),
    )));
    menu.mouse_pos = (120, 120);
    let cmds = menu.draw_menu(false, false);
    let position = |needle: &DrawCmd| cmds.iter().position(|c| c == needle).unwrap();
    let clear = position(&DrawCmd::Clear { color: Vec4::new(0, 0, 0, 0) });
    let base = position(&DrawCmd::FilledRect {
        rect: Rect::new(Vertex { x: 100, y: 100 }, 600, 450),
        color: Vec4::new(128, 128, 128, 255),
    });
    let widget = position(&DrawCmd::FilledRect {
        rect: Rect::new(Vertex { x: 115, y: 115 }, 30, 30),
        color: Vec4::new(0, 255, 178, 255),
    });
    let highlight = position(&DrawCmd::OutlineRect {
        rect: Rect::new(Vertex { x: 113, y: 113 }, 34, 34),
        color: Vec4::new(255, 0, 0, 255),
        thickness: 4,
    });
    assert!(clear < base && base < widget && widget < highlight);
}

#[test]
fn toggle_round_trip_restores_state_and_style() {
    let mut menu = Menu::new((800, 800), (600, 450));
    assert!(menu.clickthrough);
    let first = menu.toggle_overlay();
    assert!(!menu.clickthrough);
    assert_eq!(first.style, WindowStyle::Interactive);
    assert_eq!(first.synthesize, vec![PointerAction::PrimaryDown, PointerAction::PrimaryUp]);
    let second = menu.toggle_overlay();
    assert!(menu.clickthrough);
    assert_eq!(second.style, WindowStyle::ClickThrough);
    assert_eq!(second.synthesize, vec![PointerAction::PrimaryDown, PointerAction::PrimaryUp]);
}

#[test]
fn add_to_draw_list_keeps_insertion_order() {
    let mut menu = Menu::new((800, 800), (600, 450));
    menu.add_to_draw_list(MenuObject::CheckBox(checkbox_at(
        110,
        110,
        MenuOptions::new(false, false, false, false),
    )));
    menu.add_to_draw_list(MenuObject::FilledBox(FilledBox::new(
        MenuOptions::new(false, false, false, false),
        Rect::new(Vertex { x: 140, y: 110 }, 10, 10),
        Vec4::new(1, 1, 1, 1),
        None,
    )));
    assert_eq!(menu.objects.len(), 2);
    assert!(matches!(menu.objects[0], MenuObject::CheckBox(_)));
    assert!(matches!(menu.objects[1], MenuObject::FilledBox(_)));
}
