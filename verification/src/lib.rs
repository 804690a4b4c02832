//! Overlay menu toolkit: a retained-mode widget scene (checkboxes, boxes,
//! sliders, labels, line lists) drawn anew every frame over a transparent
//! always-on-top window.
//!
//! The scene engine here is pure: every frame it consumes sampled input
//! (pointer position and button state) and produces an ordered list of draw
//! commands.  Submitting those commands to a graphics backend, creating the
//! overlay window, and polling the platform for input are left to the caller.
//!
//! All coordinates are signed screen-space pixels, origin top-left, y down.
//! Positions are kept within `COORD_LIMIT` of the origin; committed moves
//! saturate at that range so that the per-frame arithmetic never overflows.

use vstd::prelude::*;

pub mod check_box;
pub mod draw_list;
pub mod filled_box;
pub mod float_slider;
pub mod label;
pub mod line_list;
pub mod outline_box;

pub use crate::draw_list::cmds_view;
pub use crate::draw_list::CmdV;
pub use crate::draw_list::DrawCmd;

verus! {

/// Largest magnitude a coordinate, size, or pointer position may take.
pub const COORD_LIMIT: i64 = 1_000_000_000;

/// A single point in screen space.
#[derive(Clone, Copy, Debug, PartialEq, Eq, Structural)]
pub struct Vertex {
    pub x: i64,
    pub y: i64,
}

impl Vertex {
    /// Whether the point lies within the supported coordinate range.
    pub open spec fn wf(self) -> bool {
        &&& -COORD_LIMIT <= self.x <= COORD_LIMIT
        &&& -COORD_LIMIT <= self.y <= COORD_LIMIT
    }
}

/// An RGBA color with 8-bit channels.
#[derive(Clone, Copy, Debug, PartialEq, Eq, Structural)]
pub struct Vec4 {
    pub r: u8,
    pub g: u8,
    pub b: u8,
    pub a: u8,
}

impl Vec4 {
    pub fn new(r: u8, g: u8, b: u8, a: u8) -> (c: Vec4)
        ensures
            c == (Vec4 { r, g, b, a }),
    {
        Vec4 { r, g, b, a }
    }
}

/// The color of hover highlights, checkmarks, and slider markers.
pub open spec fn accent_color() -> Vec4 {
    Vec4 { r: 255, g: 0, b: 0, a: 255 }
}

/// An axis-aligned rectangle: top-left corner plus non-negative extent.
#[derive(Clone, Copy, Debug, PartialEq, Eq, Structural)]
pub struct Rect {
    pub top_left: Vertex,
    pub width: i64,
    pub height: i64,
}

impl Rect {
    /// Corner in range and extent non-negative and bounded.
    pub open spec fn wf(self) -> bool {
        &&& self.top_left.wf()
        &&& 0 <= self.width <= COORD_LIMIT
        &&& 0 <= self.height <= COORD_LIMIT
    }

    pub fn new(top_left: Vertex, width: i64, height: i64) -> (r: Rect)
        ensures
            r == (Rect { top_left, width, height }),
    {
        Rect { top_left, width, height }
    }
}

/// Strict (boundary-excluding) containment of a point in a rectangle.
pub open spec fn rect_hit(r: Rect, pos: (i64, i64)) -> bool {
    &&& pos.0 < r.top_left.x + r.width
    &&& pos.0 > r.top_left.x
    &&& pos.1 < r.top_left.y + r.height
    &&& pos.1 > r.top_left.y
}

/// Saturate a proposed coordinate at the supported range.
pub open spec fn clamp_coord(v: int) -> i64 {
    if v > COORD_LIMIT as int {
        COORD_LIMIT
    } else if v < -(COORD_LIMIT as int) {
        (-(COORD_LIMIT as int)) as i64
    } else {
        v as i64
    }
}

/// A rectangle moved by the given delta, each coordinate saturating.
pub open spec fn translate_rect(r: Rect, dx: int, dy: int) -> Rect {
    Rect {
        top_left: Vertex {
            x: clamp_coord(r.top_left.x + dx),
            y: clamp_coord(r.top_left.y + dy),
        },
        ..r
    }
}

/// Per-widget flags read only by the engine's per-frame loop.
#[derive(Clone, Copy, Debug, PartialEq, Eq, Structural)]
pub struct MenuOptions {
    /// The engine lets the pointer drag this widget inside the base panel.
    pub draggable: bool,
    /// The engine outlines this widget while the pointer hovers over it.
    pub hover: bool,
    /// The engine evicts this widget after the frame that draws it.
    pub delete: bool,
    /// The engine moves this widget along with the base panel.
    pub moveable: bool,
}

impl MenuOptions {
    pub fn new(draggable: bool, hover: bool, delete: bool, moveable: bool) -> (o: MenuOptions)
        ensures
            o == (MenuOptions { draggable, hover, delete, moveable }),
    {
        MenuOptions { draggable, hover, delete, moveable }
    }
}

/// The scene: one base panel, the ordered child widgets, and the input
/// latches the per-frame pass reads.
///
/// `mouse_pos` is written by the caller on every pointer-move event; the
/// other fields are maintained by the engine.
#[derive(Debug)]
pub struct Menu {
    /// Size of the overlay's framebuffer, passed through to the backend.
    pub window_size: (i64, i64),
    /// The pointer position sampled for this frame.
    pub mouse_pos: (i64, i64),
    /// The pointer position already consumed by drag handling; the difference
    /// to `mouse_pos` is the pending drag delta.
    pub cached_mouse_pos: (i64, i64),
    /// The background panel every other widget is positioned against.
    pub base: filled_box::FilledBox,
    /// Child widgets in insertion order: later entries draw on top.
    pub objects: Vec<MenuObject>,
    /// Whether pointer events currently pass through the overlay.
    pub clickthrough: bool,
    /// Edge latch: the primary button went down since the previous frame.
    pub clicked: bool,
    /// Level latch: the secondary button is held, so drags are live.
    pub dragging: bool,
}

/// A widget in the scene, dispatched over its variant.
#[derive(Debug)]
pub enum MenuObject {
    CheckBox(check_box::CheckBox),
    FilledBox(filled_box::FilledBox),
    OutlineBox(outline_box::OutlineBox),
    FloatSlider(float_slider::FloatSlider),
}

/// Draw a widget's geometry into the frame's command list.
pub trait Draw {
    /// When the draw arithmetic stays within machine bounds.
    spec fn draw_req(&self) -> bool;

    /// The commands one draw of this widget emits, in order.
    spec fn draw_view(&self) -> Seq<CmdV>;

    fn draw(&self, cmds: &mut Vec<DrawCmd>)
        requires
            self.draw_req(),
        ensures
            cmds_view(final(cmds)@) == cmds_view(old(cmds)@) + self.draw_view(),
    ;
}

/// Hit-test a widget against the scene's pointer position.
pub trait InBounds {
    /// Whether the widget occupies the given pointer position.
    spec fn hit_at(&self, pos: (i64, i64)) -> bool;

    /// When the containment arithmetic stays within machine bounds.
    spec fn hit_req(&self) -> bool;

    fn in_bounds(&self, menu: &Menu) -> (r: bool)
        requires
            self.hit_req(),
        ensures
            r == self.hit_at(menu.mouse_pos),
    ;
}

/// Outline a widget while the pointer hovers over it.
pub trait Hovering {
    /// When the hover arithmetic stays within machine bounds.
    spec fn hover_req(&self) -> bool;

    /// The commands a hover pass emits: a highlight outline when hit.
    spec fn hover_view(&self, pos: (i64, i64)) -> Seq<CmdV>;

    fn is_hovering(&self, menu: &Menu, cmds: &mut Vec<DrawCmd>)
        requires
            self.hover_req(),
        ensures
            cmds_view(final(cmds)@) == cmds_view(old(cmds)@) + self.hover_view(menu.mouse_pos),
    ;
}

/// Detect a click on a widget this frame, mutating widget state that a click
/// changes (a checkbox's cell, a slider's value).
pub trait Clicked: Sized {
    /// When the click arithmetic stays within machine bounds.
    spec fn click_req(&self, menu: &Menu) -> bool;

    /// Whether a click lands on the widget this frame.
    spec fn click_hit(&self, menu: &Menu) -> bool;

    /// The widget as it stands after the click check.
    spec fn click_result(&self, menu: &Menu) -> Self;

    fn clicked(&mut self, menu: &Menu) -> (r: bool)
        requires
            old(self).click_req(menu),
        ensures
            r == old(self).click_hit(menu),
            *final(self) == old(self).click_result(menu),
    ;
}

/// Give the engine a copy of a widget's option flags.
pub trait Options {
    /// The widget's option flags, as the engine reads them.
    spec fn spec_options(&self) -> MenuOptions;

    fn get_options(&self) -> (o: MenuOptions)
        ensures
            o == self.spec_options(),
    ;
}

/// Let the pointer drag a widget, clamped to the base panel.
pub trait Draggable: Sized {
    /// When the drag arithmetic stays within machine bounds.
    spec fn drag_req(&self, menu: &Menu) -> bool;

    /// The widget and the scene's cached pointer after the drag check.
    spec fn drag_result(&self, menu: &Menu) -> (Self, (i64, i64));

    fn is_dragging(&mut self, menu: &mut Menu)
        requires
            old(self).drag_req(old(menu)),
        ensures
            *final(self) == old(self).drag_result(old(menu)).0,
            *final(menu) == (Menu {
                cached_mouse_pos: old(self).drag_result(old(menu)).1,
                ..*old(menu)
            }),
    ;
}

impl Rect {
    /// Loose bounds under which a rectangle's draw arithmetic cannot
    /// overflow; holds of every well-formed rectangle and of the slightly
    /// enlarged hover outlines.
    pub open spec fn draw_ok(self) -> bool {
        &&& -(COORD_LIMIT + 8) <= self.top_left.x <= COORD_LIMIT + 8
        &&& -(COORD_LIMIT + 8) <= self.top_left.y <= COORD_LIMIT + 8
        &&& 0 <= self.width <= COORD_LIMIT + 8
        &&& 0 <= self.height <= COORD_LIMIT + 8
    }

    /// Strict containment of the scene's pointer in this rectangle; boundary
    /// points do not count as inside.
    pub fn in_bounds(&self, menu: &Menu) -> (r: bool)
        requires
            self.draw_ok(),
        ensures
            r == rect_hit(*self, menu.mouse_pos),
    {
        menu.mouse_pos.0 < self.top_left.x + self.width && menu.mouse_pos.0 > self.top_left.x
            && menu.mouse_pos.1 < self.top_left.y + self.height
            && menu.mouse_pos.1 > self.top_left.y
    }

    /// The rectangle a hover highlight outlines: offset 2px outward, 4px
    /// larger on each axis.
    pub open spec fn hover_rect(self) -> Rect {
        Rect {
            top_left: Vertex {
                x: (self.top_left.x - 2) as i64,
                y: (self.top_left.y - 2) as i64,
            },
            width: (self.width + 4) as i64,
            height: (self.height + 4) as i64,
        }
    }

    /// The commands a hover pass over this rectangle emits.
    pub open spec fn hover_view(self, pos: (i64, i64)) -> Seq<CmdV> {
        if rect_hit(self, pos) {
            seq![
                CmdV::OutlineRect {
                    rect: self.hover_rect(),
                    color: accent_color(),
                    thickness: 4,
                },
            ]
        } else {
            Seq::empty()
        }
    }

    /// When the pointer is inside, emit the fixed-color highlight outline.
    pub fn is_hovering(&self, menu: &Menu, cmds: &mut Vec<DrawCmd>)
        requires
            self.wf(),
        ensures
            cmds_view(final(cmds)@) == cmds_view(old(cmds)@) + self.hover_view(menu.mouse_pos),
    {
        if self.in_bounds(menu) {
            let outline = crate::outline_box::OutlineBox::new(
                MenuOptions::new(false, false, false, false),
                Rect::new(
                    Vertex { x: self.top_left.x - 2, y: self.top_left.y - 2 },
                    self.width + 4,
                    self.height + 4,
                ),
                Vec4::new(255, 0, 0, 255),
                4,
            );
            outline.draw(cmds);
        } else {
            proof {
                assert(cmds_view(cmds@) + Seq::<CmdV>::empty() =~= cmds_view(cmds@));
            }
        }
    }
}

/// Saturating addition of a drag delta to a coordinate.
pub(crate) fn clamp_add(x: i64, d: i64) -> (r: i64)
    requires
        -COORD_LIMIT <= x <= COORD_LIMIT,
        -4 * COORD_LIMIT <= d <= 4 * COORD_LIMIT,
    ensures
        r == clamp_coord(x + d),
{
    let v = x + d;
    if v > COORD_LIMIT {
        COORD_LIMIT
    } else if v < -COORD_LIMIT {
        -COORD_LIMIT
    } else {
        v
    }
}

/// What a drag check does to a rectangle: if the pointer moved, is inside the
/// rectangle, the drag latch is set, and the (saturated) proposed position
/// keeps the rectangle strictly inside the base panel, the move commits and
/// the cached pointer advances to the current pointer; otherwise nothing
/// changes.
pub open spec fn drag_rect(r: Rect, menu: Menu) -> (Rect, (i64, i64)) {
    let mpos = menu.mouse_pos;
    let cpos = menu.cached_mouse_pos;
    if mpos.0 != cpos.0 || mpos.1 != cpos.1 {
        let nx = clamp_coord(r.top_left.x + mpos.0 - cpos.0);
        let ny = clamp_coord(r.top_left.y + mpos.1 - cpos.1);
        let b = menu.base.rect;
        if rect_hit(r, mpos) && menu.dragging && nx < b.top_left.x + b.width - r.width && nx
            > b.top_left.x && ny < b.top_left.y + b.height - r.height && ny > b.top_left.y {
            (Rect { top_left: Vertex { x: nx, y: ny }, ..r }, mpos)
        } else {
            (r, cpos)
        }
    } else {
        (r, cpos)
    }
}

/// Run the shared drag check on a widget's rectangle, updating the scene's
/// cached pointer when a move commits.
pub(crate) fn apply_drag(r: &mut Rect, menu: &mut Menu)
    requires
        old(r).wf(),
        old(menu).input_wf(),
        old(menu).base.rect.wf(),
    ensures
        *final(r) == drag_rect(*old(r), *old(menu)).0,
        *final(menu) == (Menu {
            cached_mouse_pos: drag_rect(*old(r), *old(menu)).1,
            ..*old(menu)
        }),
{
    if menu.mouse_pos.0 != menu.cached_mouse_pos.0 || menu.mouse_pos.1
        != menu.cached_mouse_pos.1 {
        let new_x = clamp_add(r.top_left.x, menu.mouse_pos.0 - menu.cached_mouse_pos.0);
        let new_y = clamp_add(r.top_left.y, menu.mouse_pos.1 - menu.cached_mouse_pos.1);
        let b_x = menu.base.rect.top_left.x;
        let b_y = menu.base.rect.top_left.y;
        let hit = r.in_bounds(menu);
        if hit && menu.dragging && new_x < b_x + menu.base.rect.width - r.width && new_x > b_x
            && new_y < b_y + menu.base.rect.height - r.height && new_y > b_y {
            r.top_left.x = new_x;
            r.top_left.y = new_y;
            menu.cached_mouse_pos = menu.mouse_pos;
        }
    }
}

impl Menu {
    /// The sampled pointer positions lie within the coordinate range.
    pub open spec fn input_wf(self) -> bool {
        &&& -COORD_LIMIT <= self.mouse_pos.0 <= COORD_LIMIT
        &&& -COORD_LIMIT <= self.mouse_pos.1 <= COORD_LIMIT
        &&& -COORD_LIMIT <= self.cached_mouse_pos.0 <= COORD_LIMIT
        &&& -COORD_LIMIT <= self.cached_mouse_pos.1 <= COORD_LIMIT
    }

    /// The whole scene is well-formed: input in range, base panel and every
    /// child widget well-formed.
    pub open spec fn wf(self) -> bool {
        &&& self.input_wf()
        &&& self.base.wf()
        &&& forall|i: int| 0 <= i < self.objects@.len() ==> (#[trigger] self.objects@[i]).wf()
    }
}

impl MenuObject {
    /// The widget's bounds.
    pub open spec fn spec_rect(self) -> Rect {
        match self {
            MenuObject::CheckBox(b) => b.rect,
            MenuObject::FilledBox(b) => b.rect,
            MenuObject::OutlineBox(b) => b.rect,
            MenuObject::FloatSlider(b) => b.rect,
        }
    }

    /// The same widget with its bounds replaced.
    pub open spec fn with_rect(self, r: Rect) -> MenuObject {
        match self {
            MenuObject::CheckBox(b) => MenuObject::CheckBox(check_box::CheckBox { rect: r, ..b }),
            MenuObject::FilledBox(b) => (MenuObject::FilledBox(
                filled_box::FilledBox { rect: r, ..b },
            )),
            MenuObject::OutlineBox(b) => (MenuObject::OutlineBox(
                outline_box::OutlineBox { rect: r, ..b },
            )),
            MenuObject::FloatSlider(b) => (MenuObject::FloatSlider(
                float_slider::FloatSlider { rect: r, ..b },
            )),
        }
    }

    /// The widget moved by the given delta, each coordinate saturating.
    pub open spec fn translated(self, dx: int, dy: int) -> MenuObject {
        self.with_rect(translate_rect(self.spec_rect(), dx, dy))
    }

    /// Variant-specific well-formedness.
    pub open spec fn wf(self) -> bool {
        match self {
            MenuObject::CheckBox(b) => b.wf(),
            MenuObject::FilledBox(b) => b.wf(),
            MenuObject::OutlineBox(b) => b.wf(),
            MenuObject::FloatSlider(b) => b.wf(),
        }
    }

    /// Move the widget by the given delta, each coordinate saturating.
    pub fn translate(&mut self, dx: i64, dy: i64)
        requires
            old(self).spec_rect().wf(),
            -2 * COORD_LIMIT <= dx <= 2 * COORD_LIMIT,
            -2 * COORD_LIMIT <= dy <= 2 * COORD_LIMIT,
        ensures
            *final(self) == old(self).translated(dx as int, dy as int),
    {
        match self {
            MenuObject::CheckBox(b) => {
                b.rect.top_left.x = clamp_add(b.rect.top_left.x, dx);
                b.rect.top_left.y = clamp_add(b.rect.top_left.y, dy);
            },
            MenuObject::FilledBox(b) => {
                b.rect.top_left.x = clamp_add(b.rect.top_left.x, dx);
                b.rect.top_left.y = clamp_add(b.rect.top_left.y, dy);
            },
            MenuObject::OutlineBox(b) => {
                b.rect.top_left.x = clamp_add(b.rect.top_left.x, dx);
                b.rect.top_left.y = clamp_add(b.rect.top_left.y, dy);
            },
            MenuObject::FloatSlider(b) => {
                b.rect.top_left.x = clamp_add(b.rect.top_left.x, dx);
                b.rect.top_left.y = clamp_add(b.rect.top_left.y, dy);
            },
        }
    }
}

impl Draw for MenuObject {
    open spec fn draw_req(&self) -> bool {
        match self {
            MenuObject::CheckBox(b) => b.draw_req(),
            MenuObject::FilledBox(b) => b.draw_req(),
            MenuObject::OutlineBox(b) => b.draw_req(),
            MenuObject::FloatSlider(b) => b.draw_req(),
        }
    }

    open spec fn draw_view(&self) -> Seq<CmdV> {
        match self {
            MenuObject::CheckBox(b) => b.draw_view(),
            MenuObject::FilledBox(b) => b.draw_view(),
            MenuObject::OutlineBox(b) => b.draw_view(),
            MenuObject::FloatSlider(b) => b.draw_view(),
        }
    }

    fn draw(&self, cmds: &mut Vec<DrawCmd>) {
        match self {
            MenuObject::CheckBox(b) => b.draw(cmds),
            MenuObject::FilledBox(b) => b.draw(cmds),
            MenuObject::OutlineBox(b) => b.draw(cmds),
            MenuObject::FloatSlider(b) => b.draw(cmds),
        }
    }
}

impl InBounds for MenuObject {
    open spec fn hit_at(&self, pos: (i64, i64)) -> bool {
        rect_hit(self.spec_rect(), pos)
    }

    open spec fn hit_req(&self) -> bool {
        self.spec_rect().draw_ok()
    }

    fn in_bounds(&self, menu: &Menu) -> (r: bool) {
        match self {
            MenuObject::CheckBox(b) => b.in_bounds(menu),
            MenuObject::FilledBox(b) => b.in_bounds(menu),
            MenuObject::OutlineBox(b) => b.in_bounds(menu),
            MenuObject::FloatSlider(b) => b.in_bounds(menu),
        }
    }
}

impl Hovering for MenuObject {
    open spec fn hover_req(&self) -> bool {
        self.spec_rect().wf()
    }

    open spec fn hover_view(&self, pos: (i64, i64)) -> Seq<CmdV> {
        self.spec_rect().hover_view(pos)
    }

    fn is_hovering(&self, menu: &Menu, cmds: &mut Vec<DrawCmd>) {
        match self {
            MenuObject::CheckBox(b) => b.is_hovering(menu, cmds),
            MenuObject::FilledBox(b) => b.is_hovering(menu, cmds),
            MenuObject::OutlineBox(b) => b.is_hovering(menu, cmds),
            MenuObject::FloatSlider(b) => b.is_hovering(menu, cmds),
        }
    }
}

impl Clicked for MenuObject {
    open spec fn click_req(&self, menu: &Menu) -> bool {
        match self {
            MenuObject::CheckBox(b) => b.click_req(menu),
            MenuObject::FilledBox(b) => b.click_req(menu),
            MenuObject::OutlineBox(b) => b.click_req(menu),
            MenuObject::FloatSlider(b) => b.click_req(menu),
        }
    }

    open spec fn click_hit(&self, menu: &Menu) -> bool {
        rect_hit(self.spec_rect(), menu.mouse_pos) && menu.clicked
    }

    open spec fn click_result(&self, menu: &Menu) -> MenuObject {
        match self {
            MenuObject::CheckBox(b) => MenuObject::CheckBox(b.click_result(menu)),
            MenuObject::FilledBox(b) => MenuObject::FilledBox(b.click_result(menu)),
            MenuObject::OutlineBox(b) => MenuObject::OutlineBox(b.click_result(menu)),
            MenuObject::FloatSlider(b) => MenuObject::FloatSlider(b.click_result(menu)),
        }
    }

    fn clicked(&mut self, menu: &Menu) -> (r: bool) {
        match self {
            MenuObject::CheckBox(b) => b.clicked(menu),
            MenuObject::FilledBox(b) => b.clicked(menu),
            MenuObject::OutlineBox(b) => b.clicked(menu),
            MenuObject::FloatSlider(b) => b.clicked(menu),
        }
    }
}

impl Options for MenuObject {
    open spec fn spec_options(&self) -> MenuOptions {
        match self {
            MenuObject::CheckBox(b) => b.options,
            MenuObject::FilledBox(b) => b.options,
            MenuObject::OutlineBox(b) => b.options,
            MenuObject::FloatSlider(b) => b.options,
        }
    }

    fn get_options(&self) -> (o: MenuOptions) {
        match self {
            MenuObject::CheckBox(b) => b.get_options(),
            MenuObject::FilledBox(b) => b.get_options(),
            MenuObject::OutlineBox(b) => b.get_options(),
            MenuObject::FloatSlider(b) => b.get_options(),
        }
    }
}

impl Draggable for MenuObject {
    open spec fn drag_req(&self, menu: &Menu) -> bool {
        self.spec_rect().wf() && menu.input_wf() && menu.base.rect.wf()
    }

    open spec fn drag_result(&self, menu: &Menu) -> (MenuObject, (i64, i64)) {
        let (r2, cached2) = drag_rect(self.spec_rect(), *menu);
        (self.with_rect(r2), cached2)
    }

    fn is_dragging(&mut self, menu: &mut Menu) {
        match self {
            MenuObject::CheckBox(b) => b.is_dragging(menu),
            MenuObject::FilledBox(b) => b.is_dragging(menu),
            MenuObject::OutlineBox(b) => b.is_dragging(menu),
            MenuObject::FloatSlider(b) => b.is_dragging(menu),
        }
    }
}

/// Fully transparent black, the clear color of every frame.
pub open spec fn transparent() -> Vec4 {
    Vec4 { r: 0, g: 0, b: 0, a: 0 }
}

/// What the input sampling step does to the scene: the click latch takes the
/// primary button's edge state, the drag latch follows the secondary button's
/// level, and on the drag latch's rising edge the cached pointer snaps to the
/// current pointer.
pub open spec fn input_step(m: Menu, primary_pressed: bool, secondary_held: bool) -> Menu {
    Menu {
        clicked: primary_pressed,
        dragging: secondary_held,
        cached_mouse_pos: if secondary_held && !m.dragging {
            m.mouse_pos
        } else {
            m.cached_mouse_pos
        },
        ..m
    }
}

/// Base-panel dragging is suppressed while any child widget is hit during a
/// drag: children take drag priority over the panel.
pub open spec fn base_drag_blocked(m: Menu) -> bool {
    m.dragging && exists|i: int|
        0 <= i < m.objects@.len() && (#[trigger] m.objects@[i]).hit_at(m.mouse_pos)
}

/// What the base-panel step does to the panel, the children, and the cached
/// pointer.  `m.base` itself is never consulted: the panel of interest is
/// passed separately as `base`.
pub open spec fn base_step(m: Menu, base: filled_box::FilledBox) -> (
    filled_box::FilledBox,
    Seq<MenuObject>,
    (i64, i64),
) {
    let mpos = m.mouse_pos;
    let cpos = m.cached_mouse_pos;
    let dx = mpos.0 - cpos.0;
    let dy = mpos.1 - cpos.1;
    if base_drag_blocked(m) {
        (base, m.objects@, cpos)
    } else if (mpos.0 != cpos.0 || mpos.1 != cpos.1) && rect_hit(base.rect, mpos) && m.dragging {
        let moved = filled_box::FilledBox { rect: translate_rect(base.rect, dx, dy), ..base };
        let objs = m.objects@.map_values(
            |o: MenuObject|
                if o.spec_options().moveable {
                    o.translated(dx, dy)
                } else {
                    o
                },
        );
        (moved, objs, mpos)
    } else {
        (base, m.objects@, cpos)
    }
}

/// The scene with its cached pointer replaced.
pub open spec fn with_cached(m: Menu, cached: (i64, i64)) -> Menu {
    Menu { cached_mouse_pos: cached, ..m }
}

/// What one loop turn does to one child widget: the click check first, then,
/// for draggable widgets, the drag check.  Returns the widget and the scene's
/// cached pointer afterwards.
pub open spec fn object_step(o: MenuObject, m: Menu) -> (MenuObject, (i64, i64)) {
    let o1 = o.click_result(&m);
    if o1.spec_options().draggable {
        o1.drag_result(&m)
    } else {
        (o1, m.cached_mouse_pos)
    }
}

/// The commands one loop turn emits for one child widget: its geometry as it
/// stood when drawn, then, for hover-highlighted widgets, the highlight at
/// its position after the drag check.
pub open spec fn object_cmds(o: MenuObject, m: Menu) -> Seq<CmdV> {
    let o2 = object_step(o, m).0;
    o.draw_view() + (if o2.spec_options().hover {
        o2.spec_rect().hover_view(m.mouse_pos)
    } else {
        Seq::empty()
    })
}

/// The per-frame child pass: widgets processed in insertion order, the cached
/// pointer threaded through each drag check, commands concatenated in order.
pub open spec fn pass_objects(objs: Seq<MenuObject>, m: Menu) -> (
    Seq<MenuObject>,
    (i64, i64),
    Seq<CmdV>,
)
    decreases objs.len(),
{
    if objs.len() == 0 {
        (Seq::empty(), m.cached_mouse_pos, Seq::empty())
    } else {
        let (o2, cached2) = object_step(objs[0], m);
        let head_cmds = object_cmds(objs[0], m);
        let (rest, cfin, rest_cmds) = pass_objects(objs.drop_first(), with_cached(m, cached2));
        (seq![o2] + rest, cfin, head_cmds + rest_cmds)
    }
}

/// The widgets that survive eviction: those not flagged for deletion.
pub open spec fn keep_fn() -> spec_fn(MenuObject) -> bool {
    |o: MenuObject| !o.spec_options().delete
}

/// The scene fields the child pass reads: pointer state, latches, and the
/// base panel.  The pass never consults the scene's own widget list.
pub open spec fn pass_agree(a: Menu, b: Menu) -> bool {
    &&& a.mouse_pos == b.mouse_pos
    &&& a.cached_mouse_pos == b.cached_mouse_pos
    &&& a.clicked == b.clicked
    &&& a.dragging == b.dragging
    &&& a.base == b.base
}

/// The child pass depends only on the fields `pass_agree` compares.
pub proof fn lemma_pass_agree(objs: Seq<MenuObject>, a: Menu, b: Menu)
    requires
        pass_agree(a, b),
    ensures
        pass_objects(objs, a) == pass_objects(objs, b),
    decreases objs.len(),
{
    if objs.len() > 0 {
        assert(objs[0].click_result(&a) == objs[0].click_result(&b));
        let o1 = objs[0].click_result(&a);
        assert(o1.drag_result(&a) == o1.drag_result(&b));
        let (o2, cached2) = object_step(objs[0], a);
        assert(object_step(objs[0], a) == object_step(objs[0], b));
        assert(object_cmds(objs[0], a) == object_cmds(objs[0], b));
        lemma_pass_agree(objs.drop_first(), with_cached(a, cached2), with_cached(b, cached2));
    }
}

/// Removing an element the filter drops leaves the filtered list unchanged.
pub proof fn lemma_filter_remove_dropped(s: Seq<MenuObject>, idx: int)
    requires
        0 <= idx < s.len(),
        !keep_fn()(s[idx]),
    ensures
        s.remove(idx).filter(keep_fn()) == s.filter(keep_fn()),
{
    let keep = keep_fn();
    let front = s.subrange(0, idx);
    let mid = seq![s[idx]];
    let back = s.subrange(idx + 1, s.len() as int);
    assert(s =~= front + mid + back);
    assert(s.remove(idx) =~= front + back);
    Seq::filter_distributes_over_add(front + mid, back, keep);
    Seq::filter_distributes_over_add(front, mid, keep);
    Seq::filter_distributes_over_add(front, back, keep);
    assert(mid.filter(keep) =~= Seq::<MenuObject>::empty()) by {
        reveal(Seq::filter);
        assert(mid.drop_last() =~= Seq::<MenuObject>::empty());
        assert(Seq::<MenuObject>::empty().filter(keep) =~= Seq::<MenuObject>::empty());
    }
    assert((front + mid).filter(keep) == front.filter(keep) + mid.filter(keep));
    assert(front.filter(keep) + mid.filter(keep) =~= front.filter(keep));
    assert(s.filter(keep) == (front + mid).filter(keep) + back.filter(keep));
    assert(s.remove(idx).filter(keep) == front.filter(keep) + back.filter(keep));
}

/// A checkbox click-checked in a frame whose pointer lies inside its bounds
/// with the click latch set flips its cell; a second identical frame flips
/// it back; a frame without a qualifying click never changes the checkbox.
pub proof fn lemma_checkbox_toggle_per_frame(cb: check_box::CheckBox, m: Menu)
    ensures
        cb.click_hit(&m) ==> cb.click_result(&m).checked == !cb.checked,
        cb.click_result(&m).click_result(&m) == cb,
        !cb.click_hit(&m) ==> cb.click_result(&m) == cb,
{
}

/// Dragging a widget whose proposed new position would place any edge on or
/// outside the base panel's rectangle leaves the widget's rectangle
/// unchanged; a proposed position strictly inside the panel moves it by
/// exactly the pointer delta.  The panel is assumed to lie within the
/// coordinate range, so the saturation of proposed positions never engages.
pub proof fn lemma_drag_clamping(r: Rect, m: Menu)
    requires
        r.wf(),
        m.input_wf(),
        m.base.rect.wf(),
        m.base.rect.top_left.x + m.base.rect.width <= COORD_LIMIT,
        m.base.rect.top_left.y + m.base.rect.height <= COORD_LIMIT,
    ensures
        ({
            let b = m.base.rect;
            let nx = r.top_left.x + m.mouse_pos.0 - m.cached_mouse_pos.0;
            let ny = r.top_left.y + m.mouse_pos.1 - m.cached_mouse_pos.1;
            let moved = m.mouse_pos.0 != m.cached_mouse_pos.0 || m.mouse_pos.1
                != m.cached_mouse_pos.1;
            let inside = b.top_left.x < nx < b.top_left.x + b.width - r.width && b.top_left.y < ny
                < b.top_left.y + b.height - r.height;
            &&& (moved && rect_hit(r, m.mouse_pos) && m.dragging && inside) ==> drag_rect(r, m).0
                == (Rect { top_left: (Vertex { x: nx as i64, y: ny as i64 }), ..r })
            &&& !inside ==> drag_rect(r, m).0 == r
        }),
{
}

/// While the drag latch is set and any child widget is hit, the base panel
/// and the children do not move that frame, even if the pointer is over the
/// panel as well.
pub proof fn lemma_base_drag_priority(m: Menu, base: filled_box::FilledBox, i: int)
    requires
        m.dragging,
        0 <= i < m.objects@.len(),
        m.objects@[i].hit_at(m.mouse_pos),
    ensures
        base_step(m, base).0 == base,
        base_step(m, base).1 == m.objects@,
        base_step(m, base).2 == m.cached_mouse_pos,
{
    assert(base_drag_blocked(m));
}

/// Every widget's geometry is drawn by the pass that processes it: its draw
/// commands stand contiguously in the pass's command list.
pub proof fn lemma_pass_draws_each(objs: Seq<MenuObject>, m: Menu, i: int)
    requires
        0 <= i < objs.len(),
    ensures
        exists|ofs: int|
            0 <= ofs && ofs + objs[i].draw_view().len() <= pass_objects(objs, m).2.len()
                && #[trigger] pass_objects(objs, m).2.subrange(
                ofs,
                ofs + objs[i].draw_view().len(),
            ) == objs[i].draw_view(),
    decreases objs.len(),
{
    let pass = pass_objects(objs, m);
    let head = object_cmds(objs[0], m);
    let (o2, cached2) = object_step(objs[0], m);
    let m2 = with_cached(m, cached2);
    let rest = pass_objects(objs.drop_first(), m2);
    if i == 0 {
        let dv = objs[0].draw_view();
        assert(pass.2.subrange(0, 0 + dv.len() as int) =~= dv);
        assert(pass.2.subrange(0, 0 + dv.len() as int) == dv);
    } else {
        lemma_pass_draws_each(objs.drop_first(), m2, i - 1);
        assert(objs.drop_first()[i - 1] == objs[i]);
        let dv = objs[i].draw_view();
        let ofs = choose|ofs: int|
            0 <= ofs && ofs + dv.len() <= rest.2.len() && #[trigger] rest.2.subrange(
                ofs,
                ofs + dv.len(),
            ) == dv;
        let w = head.len() as int + ofs;
        assert(pass.2.subrange(w, w + dv.len() as int) =~= rest.2.subrange(ofs, ofs + dv.len() as int));
        assert(pass.2.subrange(w, w + dv.len() as int) == dv);
    }
}

/// Eviction: after a frame, no surviving widget carries the deletion flag,
/// and a widget that entered the pass flagged for deletion is not among the
/// survivors (it was drawn by that same pass, see `lemma_pass_draws_each`).
pub proof fn lemma_eviction(objs: Seq<MenuObject>, m: Menu, i: int)
    requires
        0 <= i < objs.len(),
        objs[i].spec_options().delete,
        forall|j: int| 0 <= j < objs.len() ==> (#[trigger] objs[j]).wf(),
        m.input_wf(),
    ensures
        ({
            let survivors = pass_objects(objs, m).0.filter(keep_fn());
            &&& forall|k: int|
                0 <= k < survivors.len() ==> !(#[trigger] survivors[k]).spec_options().delete
            &&& pass_objects(objs, m).0[i].spec_options().delete
            &&& forall|k: int| 0 <= k < survivors.len() ==> survivors[k] != pass_objects(objs, m).0[i]
        }),
{
    let passed = pass_objects(objs, m).0;
    let survivors = passed.filter(keep_fn());
    lemma_pass_preserves(objs, m);
    assert forall|k: int| 0 <= k < survivors.len() implies !(
    #[trigger] survivors[k]).spec_options().delete by {
        passed.lemma_filter_pred(keep_fn(), k);
    }
}

/// Two consecutive toggles of the click-through state machine restore both
/// the original interactivity state and the window style the caller is told
/// to set for it.
pub proof fn lemma_toggle_round_trip(m: Menu)
    ensures
        ({
            let m1 = Menu { clickthrough: !m.clickthrough, ..m };
            let m2 = Menu { clickthrough: !m1.clickthrough, ..m1 };
            &&& m2 == m
            &&& style_of(m2.clickthrough) == style_of(m.clickthrough)
        }),
{
}

/// Filtering keeps a list whole when every element passes.
pub proof fn lemma_filter_all_kept(s: Seq<MenuObject>)
    requires
        forall|i: int| 0 <= i < s.len() ==> keep_fn()(#[trigger] s[i]),
    ensures
        s.filter(keep_fn()) == s,
    decreases s.len(),
{
    reveal(Seq::filter);
    if s.len() > 0 {
        lemma_filter_all_kept(s.drop_last());
        assert(s.drop_last().filter(keep_fn()).push(s.last()) =~= s);
    }
}

/// The interactivity states of the overlay window.
#[derive(Clone, Copy, Debug, PartialEq, Eq, Structural)]
pub enum WindowStyle {
    /// Pointer events pass through the overlay to the window beneath it.
    ClickThrough,
    /// The overlay receives pointer events itself.
    Interactive,
}

/// A pointer event the caller must synthesize on the platform.
#[derive(Clone, Copy, Debug, PartialEq, Eq, Structural)]
pub enum PointerAction {
    PrimaryDown,
    PrimaryUp,
}

/// The window style that realizes a click-through state.
pub open spec fn style_of(clickthrough: bool) -> WindowStyle {
    if clickthrough {
        WindowStyle::ClickThrough
    } else {
        WindowStyle::Interactive
    }
}

/// What the caller must apply to the platform window after a toggle.
#[derive(Debug)]
pub struct ToggleAction {
    /// The window style to set.
    pub style: WindowStyle,
    /// Pointer events to synthesize right after the style change, in order.
    pub synthesize: Vec<PointerAction>,
}

impl Menu {
    /// A fresh scene for an overlay of the given framebuffer size: the base
    /// panel sits at `(100, 100)` with the given extent, the pointer latches
    /// start clear, and the overlay starts click-through.
    pub fn new(window_size: (i64, i64), base_size: (i64, i64)) -> (m: Menu)
        requires
            0 <= base_size.0 <= COORD_LIMIT,
            0 <= base_size.1 <= COORD_LIMIT,
        ensures
            m.window_size == window_size,
            m.mouse_pos == (0i64, 0i64),
            m.cached_mouse_pos == (0i64, 0i64),
            m.base == (filled_box::FilledBox {
                options: (MenuOptions {
                    draggable: true,
                    hover: true,
                    delete: false,
                    moveable: false,
                }),
                rect: (Rect {
                    top_left: (Vertex { x: 100, y: 100 }),
                    width: base_size.0,
                    height: base_size.1,
                }),
                color: (Vec4 { r: 128, g: 128, b: 128, a: 255 }),
                label: None,
            }),
            m.objects@ == Seq::<MenuObject>::empty(),
            m.clickthrough == true,
            m.clicked == false,
            m.dragging == false,
            m.wf(),
    {
        let base = filled_box::FilledBox::new(
            MenuOptions::new(true, true, false, false),
            Rect::new(Vertex { x: 100, y: 100 }, base_size.0, base_size.1),
            Vec4::new(128, 128, 128, 255),
            None,
        );
        Menu {
            window_size,
            mouse_pos: (0, 0),
            cached_mouse_pos: (0, 0),
            base,
            objects: Vec::new(),
            clickthrough: true,
            clicked: false,
            dragging: false,
        }
    }

    /// Latch the sampled button state for this frame: the click latch takes
    /// the primary button's pressed-since-last-frame edge, the drag latch
    /// follows the secondary button's level, and on the drag latch's rising
    /// edge the cached pointer snaps to the current pointer.
    pub fn check_clicks(&mut self, primary_pressed: bool, secondary_held: bool)
        ensures
            *final(self) == input_step(*old(self), primary_pressed, secondary_held),
    {
        if self.clicked {
            self.clicked = false;
        }
        if primary_pressed {
            self.clicked = true;
        }
        if secondary_held {
            if !self.dragging {
                self.dragging = true;
                self.cached_mouse_pos = self.mouse_pos;
            }
        } else {
            self.dragging = false;
        }
    }

    /// Hand a widget to the scene; it draws after (and over) all earlier
    /// widgets and is hit-tested in the same order.
    pub fn add_to_draw_list(&mut self, object: MenuObject)
        ensures
            final(self).objects@ == old(self).objects@.push(object),
            final(self).window_size == old(self).window_size,
            final(self).mouse_pos == old(self).mouse_pos,
            final(self).cached_mouse_pos == old(self).cached_mouse_pos,
            final(self).base == old(self).base,
            final(self).clickthrough == old(self).clickthrough,
            final(self).clicked == old(self).clicked,
            final(self).dragging == old(self).dragging,
    {
        self.objects.push(object);
    }

    /// Flip the click-through state machine.  The caller must set the
    /// returned window style on the platform window and then synthesize the
    /// returned pointer events in order: the press/release pair works around
    /// a focus and redraw quirk when the overlay changes interactivity.
    pub fn toggle_overlay(&mut self) -> (action: ToggleAction)
        ensures
            *final(self) == (Menu { clickthrough: !old(self).clickthrough, ..*old(self) }),
            action.style == style_of(final(self).clickthrough),
            action.synthesize@ == seq![PointerAction::PrimaryDown, PointerAction::PrimaryUp],
    {
        let style = if self.clickthrough {
            self.clickthrough = false;
            WindowStyle::Interactive
        } else {
            self.clickthrough = true;
            WindowStyle::ClickThrough
        };
        let mut synthesize: Vec<PointerAction> = Vec::new();
        synthesize.push(PointerAction::PrimaryDown);
        synthesize.push(PointerAction::PrimaryUp);
        proof {
            assert(synthesize@ =~= seq![PointerAction::PrimaryDown, PointerAction::PrimaryUp]);
        }
        ToggleAction { style, synthesize }
    }
}

impl Menu {
    /// Drag the base panel.  Suppressed while any child is hit during a
    /// drag (children take drag priority); otherwise, when the pointer moved
    /// over the panel with the drag latch set, the panel and every child
    /// flagged `moveable` translate by the pointer delta, and the cached
    /// pointer advances.
    fn base_dragging(&mut self, base: &mut filled_box::FilledBox)
        requires
            old(self).input_wf(),
            old(base).rect.wf(),
            forall|i: int|
                0 <= i < old(self).objects@.len() ==> (#[trigger] old(self).objects@[i]).wf(),
        ensures
            *final(base) == base_step(*old(self), *old(base)).0,
            final(self).objects@ == base_step(*old(self), *old(base)).1,
            final(self).cached_mouse_pos == base_step(*old(self), *old(base)).2,
            final(self).window_size == old(self).window_size,
            final(self).mouse_pos == old(self).mouse_pos,
            final(self).base == old(self).base,
            final(self).clickthrough == old(self).clickthrough,
            final(self).clicked == old(self).clicked,
            final(self).dragging == old(self).dragging,
    {
        let ghost m0 = *self;
        let ghost b0 = *base;
        let n = self.objects.len();
        let mut i: usize = 0;
        while i < n
            invariant
                i <= n,
                n == self.objects@.len(),
                *self == m0,
                m0.input_wf(),
                forall|j: int| 0 <= j < n ==> (#[trigger] m0.objects@[j]).wf(),
                forall|j: int|
                    0 <= j < i ==> !(#[trigger] m0.objects@[j]).hit_at(m0.mouse_pos)
                        || !m0.dragging,
            decreases n - i,
        {
            let hit = self.objects[i].in_bounds(self);
            if hit && self.dragging {
                proof {
                    assert(m0.objects@[i as int].hit_at(m0.mouse_pos));
                    assert(base_drag_blocked(m0));
                }
                return ;
            }
            i += 1;
        }
        proof {
            assert(!base_drag_blocked(m0));
        }
        if self.mouse_pos.0 != self.cached_mouse_pos.0 || self.mouse_pos.1
            != self.cached_mouse_pos.1 {
            let hit = base.rect.in_bounds(self);
            if hit && self.dragging {
                let dx = self.mouse_pos.0 - self.cached_mouse_pos.0;
                let dy = self.mouse_pos.1 - self.cached_mouse_pos.1;
                base.rect.top_left.x = clamp_add(base.rect.top_left.x, dx);
                base.rect.top_left.y = clamp_add(base.rect.top_left.y, dy);
                let mut k: usize = 0;
                while k < n
                    invariant
                        k <= n,
                        n == self.objects@.len(),
                        m0.input_wf(),
                        forall|j: int| 0 <= j < n ==> (#[trigger] m0.objects@[j]).wf(),
                        dx == m0.mouse_pos.0 - m0.cached_mouse_pos.0,
                        dy == m0.mouse_pos.1 - m0.cached_mouse_pos.1,
                        *base == (filled_box::FilledBox {
                            rect: translate_rect(b0.rect, dx as int, dy as int),
                            ..b0
                        }),
                        forall|j: int|
                            0 <= j < k ==> #[trigger] self.objects@[j] == (
                            if m0.objects@[j].spec_options().moveable {
                                m0.objects@[j].translated(dx as int, dy as int)
                            } else {
                                m0.objects@[j]
                            }),
                        forall|j: int|
                            k <= j < n ==> #[trigger] self.objects@[j] == m0.objects@[j],
                        self.window_size == m0.window_size,
                        self.mouse_pos == m0.mouse_pos,
                        self.cached_mouse_pos == m0.cached_mouse_pos,
                        self.base == m0.base,
                        self.clickthrough == m0.clickthrough,
                        self.clicked == m0.clicked,
                        self.dragging == m0.dragging,
                    decreases n - k,
                {
                    let opts = self.objects[k].get_options();
                    if opts.moveable {
                        self.objects[k].translate(dx, dy);
                    }
                    k += 1;
                }
                self.cached_mouse_pos = self.mouse_pos;
                proof {
                    let spec_objs = base_step(m0, b0).1;
                    assert(self.objects@.len() == spec_objs.len());
                    assert(forall|j: int|
                        0 <= j < n ==> self.objects@[j] == #[trigger] spec_objs[j]);
                    assert(self.objects@ =~= spec_objs);
                }
            }
        }
    }
}

/// A click check never changes a widget's bounds or options, and keeps it
/// well-formed.
pub proof fn lemma_click_preserves(o: MenuObject, m: Menu)
    requires
        o.wf(),
        m.input_wf(),
    ensures
        o.click_result(&m).wf(),
        o.click_result(&m).spec_options() == o.spec_options(),
        o.click_result(&m).spec_rect() == o.spec_rect(),
{
    match o {
        MenuObject::FloatSlider(s) => {
            if s.click_hit(&m) && s.max > s.min && s.rect.width > 0 {
                let dx = m.mouse_pos.0 - s.rect.top_left.x;
                let range = s.max - s.min;
                vstd::arithmetic::mul::lemma_mul_inequality(
                    dx as int,
                    s.rect.width as int,
                    range as int,
                );
                vstd::arithmetic::div_mod::lemma_div_is_ordered(
                    dx * range,
                    s.rect.width * range,
                    s.rect.width as int,
                );
                vstd::arithmetic::div_mod::lemma_div_multiples_vanish(
                    range as int,
                    s.rect.width as int,
                );
                vstd::arithmetic::div_mod::lemma_div_pos_is_pos(dx * range, s.rect.width as int);
            }
        },
        _ => {},
    }
}

/// A drag check keeps a widget well-formed, never changes its options, and
/// leaves the cached pointer within the coordinate range.
pub proof fn lemma_drag_preserves(o: MenuObject, m: Menu)
    requires
        o.wf(),
        m.input_wf(),
    ensures
        o.drag_result(&m).0.wf(),
        o.drag_result(&m).0.spec_options() == o.spec_options(),
        -COORD_LIMIT <= o.drag_result(&m).1.0 <= COORD_LIMIT,
        -COORD_LIMIT <= o.drag_result(&m).1.1 <= COORD_LIMIT,
{
}

/// One unfolding of the child pass: processing the widget at `i` from cached
/// pointer `c_a` extends the processed prefix by its stepped form, appends
/// its commands, and threads the stepped cached pointer into the rest.
proof fn lemma_pass_loop_step(
    objs0: Seq<MenuObject>,
    i: int,
    mstart: Menu,
    c_a: (i64, i64),
    oa: Seq<MenuObject>,
    ob: Seq<MenuObject>,
    view_a: Seq<CmdV>,
    view_b: Seq<CmdV>,
    p: int,
    total: (Seq<MenuObject>, (i64, i64), Seq<CmdV>),
)
    requires
        0 <= i < objs0.len(),
        oa.len() == objs0.len(),
        ob == oa.update(i, object_step(objs0[i], with_cached(mstart, c_a)).0),
        view_b == view_a + object_cmds(objs0[i], with_cached(mstart, c_a)),
        0 <= p <= view_a.len(),
        total == ({
            let rest = pass_objects(objs0.skip(i), with_cached(mstart, c_a));
            (oa.take(i) + rest.0, rest.1, view_a.skip(p) + rest.2)
        }),
    ensures
        total == ({
            let c_b = object_step(objs0[i], with_cached(mstart, c_a)).1;
            let rest = pass_objects(objs0.skip(i + 1), with_cached(mstart, c_b));
            (ob.take(i + 1) + rest.0, rest.1, view_b.skip(p) + rest.2)
        }),
        view_b.take(p) == view_a.take(p),
{
    let mi = with_cached(mstart, c_a);
    let step = object_step(objs0[i], mi);
    let o2 = step.0;
    let c_b = step.1;
    let head_cmds = object_cmds(objs0[i], mi);
    assert(objs0.skip(i)[0] == objs0[i]);
    assert(objs0.skip(i).drop_first() =~= objs0.skip(i + 1));
    assert(with_cached(mi, c_b) == with_cached(mstart, c_b));
    let rest_a = pass_objects(objs0.skip(i), mi);
    let rest_b = pass_objects(objs0.skip(i + 1), with_cached(mstart, c_b));
    assert(rest_a.0 == seq![o2] + rest_b.0);
    assert(rest_a.1 == rest_b.1);
    assert(rest_a.2 == head_cmds + rest_b.2);
    assert(ob.take(i + 1) =~= oa.take(i).push(o2));
    assert(oa.take(i).push(o2) + rest_b.0 =~= oa.take(i) + (seq![o2] + rest_b.0));
    assert(view_b.skip(p) =~= view_a.skip(p) + head_cmds);
    assert((view_a.skip(p) + head_cmds) + rest_b.2 =~= view_a.skip(p) + (head_cmds + rest_b.2));
    assert(view_b.take(p) =~= view_a.take(p));
}

impl Menu {
    /// Run one frame: latch the sampled input, clear the frame, draw and
    /// drag the base panel, then draw, click-check, drag, hover-check and
    /// delete-mark each child in insertion order, evict the marked children,
    /// and return the frame's draw commands for the caller to submit.
    ///
    /// Children are painted in insertion order (later entries on top) and
    /// receive input in the same order: a widget added later does not shadow
    /// an earlier overlapping widget for input.
    #[verifier::rlimit(100)]
    pub fn draw_menu(&mut self, primary_pressed: bool, secondary_held: bool) -> (cmds: Vec<
        DrawCmd,
    >)
        requires
            old(self).wf(),
        ensures
            ({
                let m1 = input_step(*old(self), primary_pressed, secondary_held);
                let st = base_step(m1, m1.base);
                let m2 = Menu { base: st.0, cached_mouse_pos: st.2, ..m1 };
                let pass = pass_objects(st.1, m2);
                &&& final(self).window_size == old(self).window_size
                &&& final(self).mouse_pos == old(self).mouse_pos
                &&& final(self).clickthrough == old(self).clickthrough
                &&& final(self).clicked == m1.clicked
                &&& final(self).dragging == m1.dragging
                &&& final(self).base == st.0
                &&& final(self).cached_mouse_pos == pass.1
                &&& final(self).objects@ == pass.0.filter(keep_fn())
                &&& cmds_view(cmds@) == seq![CmdV::Clear { color: transparent() }]
                    + m1.base.draw_view() + st.0.rect.hover_view(m1.mouse_pos) + pass.2
                &&& final(self).wf()
            }),
    {
        self.check_clicks(primary_pressed, secondary_held);
        let ghost m1 = *self;
        let mut cmds: Vec<DrawCmd> = Vec::new();
        let clear = DrawCmd::Clear { color: Vec4::new(0, 0, 0, 0) };
        let ghost clear_snapshot = clear;
        cmds.push(clear);
        proof {
            crate::draw_list::lemma_cmds_view_push(Seq::empty(), clear_snapshot);
            assert(cmds_view(Seq::<DrawCmd>::empty()) =~= Seq::<CmdV>::empty());
            assert(cmds_view(cmds@) =~= seq![CmdV::Clear { color: transparent() }]);
        }
        let mut base = filled_box::FilledBox::new(
            MenuOptions::new(false, false, false, false),
            Rect::new(Vertex { x: 0, y: 0 }, 0, 0),
            Vec4::new(0, 0, 0, 0),
            None,
        );
        core::mem::swap(&mut base, &mut self.base);
        base.draw(&mut cmds);
        let ghost mdum = *self;
        self.base_dragging(&mut base);
        proof {
            lemma_base_step_agnostic(mdum, m1, m1.base);
            lemma_base_step_preserves(m1, m1.base);
        }
        let ghost st = base_step(m1, m1.base);
        base.is_hovering(self, &mut cmds);
        self.base = base;
        let mut objects: Vec<MenuObject> = Vec::new();
        core::mem::swap(&mut objects, &mut self.objects);
        let ghost mstart = *self;
        let ghost objs0 = objects@;
        let ghost pre_cmds = cmds@;
        let ghost p = pre_cmds.len() as int;
        let ghost total = pass_objects(objs0, mstart);
        proof {
            assert(objs0 == st.1);
            assert(cmds_view(pre_cmds) =~= seq![CmdV::Clear { color: transparent() }]
                + m1.base.draw_view() + st.0.rect.hover_view(m1.mouse_pos));
            assert(objs0.skip(0) =~= objs0);
            assert(with_cached(mstart, mstart.cached_mouse_pos) == mstart);
            assert(cmds_view(pre_cmds).skip(p) =~= Seq::<CmdV>::empty());
            assert(cmds_view(pre_cmds).take(p) =~= cmds_view(pre_cmds));
            assert(objects@.take(0) =~= Seq::<MenuObject>::empty());
            assert(objects@.take(0) + total.0 =~= total.0);
            assert(cmds_view(pre_cmds).skip(p) + total.2 =~= total.2);
        }
        let n = objects.len();
        let mut marks: Vec<usize> = Vec::new();
        let mut i: usize = 0;
        while i < n
            invariant
                i <= n,
                n == objects@.len(),
                objs0.len() == n,
                mstart.input_wf(),
                mstart.base.rect.wf(),
                forall|j: int| 0 <= j < n ==> (#[trigger] objs0[j]).wf(),
                *self == with_cached(mstart, self.cached_mouse_pos),
                -COORD_LIMIT <= self.cached_mouse_pos.0 <= COORD_LIMIT,
                -COORD_LIMIT <= self.cached_mouse_pos.1 <= COORD_LIMIT,
                forall|j: int| i <= j < n ==> #[trigger] objects@[j] == objs0[j],
                forall|j: int|
                    0 <= j < i ==> (#[trigger] objects@[j]).wf() && objects@[j].spec_options()
                        == objs0[j].spec_options(),
                0 <= p <= cmds_view(cmds@).len(),
                cmds_view(cmds@).take(p) == cmds_view(pre_cmds),
                total == ({
                    let rest = pass_objects(
                        objs0.skip(i as int),
                        with_cached(mstart, self.cached_mouse_pos),
                    );
                    (
                        objects@.take(i as int) + rest.0,
                        rest.1,
                        cmds_view(cmds@).skip(p) + rest.2,
                    )
                }),
                forall|t: int|
                    0 <= t < marks@.len() ==> (#[trigger] marks@[t] as int) < i,
                forall|t: int|
                    0 <= t < marks@.len() ==> (#[trigger] objects@[marks@[t] as int]).spec_options().delete,
                forall|j: int|
                    0 <= j < i && (#[trigger] objects@[j]).spec_options().delete
                        ==> marks@.contains(j as usize),
                forall|t1: int, t2: int|
                    0 <= t1 < t2 < marks@.len() ==> #[trigger] marks@[t1] < #[trigger] marks@[t2],
            decreases n - i,
        {
            let ghost c_a = self.cached_mouse_pos;
            let ghost mi = with_cached(mstart, c_a);
            let ghost o0 = objects@[i as int];
            let ghost view_a = cmds_view(cmds@);
            let ghost oa = objects@;
            let ghost marks_a = marks@;
            objects[i].draw(&mut cmds);
            let _click = objects[i].clicked(self);
            let opts = objects[i].get_options();
            proof {
                lemma_click_preserves(o0, mi);
            }
            if opts.draggable {
                objects[i].is_dragging(self);
            }
            proof {
                lemma_drag_preserves(o0.click_result(&mi), mi);
                assert(objects@[i as int] == object_step(o0, mi).0);
                assert(self.cached_mouse_pos == object_step(o0, mi).1);
            }
            if opts.hover {
                objects[i].is_hovering(self, &mut cmds);
            }
            if opts.delete {
                marks.push(i);
            }
            proof {
                let o2 = object_step(o0, mi).0;
                let c_b = object_step(o0, mi).1;
                assert(*self == with_cached(mstart, c_b));
                assert(cmds_view(cmds@) =~= view_a + object_cmds(o0, mi));
                assert(objects@ =~= oa.update(i as int, o2));
                lemma_pass_loop_step(
                    objs0,
                    i as int,
                    mstart,
                    c_a,
                    oa,
                    objects@,
                    view_a,
                    cmds_view(cmds@),
                    p,
                    total,
                );
                assert(objects@[i as int].spec_options() == objs0[i as int].spec_options());
                assert forall|j: int|
                    0 <= j < i + 1 && (#[trigger] objects@[j]).spec_options().delete implies marks@.contains(
                    j as usize,
                ) by {
                    if j < i {
                        assert(oa[j] == objects@[j]);
                        let t = choose|t: int| 0 <= t < marks_a.len() && marks_a[t] == j as usize;
                        assert(marks@[t] == j as usize);
                    } else {
                        assert(opts.delete);
                        assert(marks@[marks_a.len() as int] == i);
                    }
                }
            }
            i += 1;
        }
        proof {
            assert(objs0.skip(n as int) =~= Seq::<MenuObject>::empty());
            assert(objects@.take(n as int) =~= objects@);
            assert(total.0 =~= objects@);
            assert(total.1 == self.cached_mouse_pos);
            assert(cmds_view(cmds@) =~= cmds_view(cmds@).take(p) + cmds_view(cmds@).skip(p));
            assert(cmds_view(cmds@) =~= cmds_view(pre_cmds) + total.2);
        }
        let ghost passed = objects@;
        let ghost marks_all = marks@;
        let mut j: usize = marks.len();
        while j > 0
            invariant
                j <= marks@.len(),
                marks@ == marks_all,
                objects@.len() + (marks@.len() - j) == passed.len(),
                forall|t: int|
                    0 <= t < j ==> (#[trigger] marks@[t] as int) < objects@.len(),
                forall|t: int|
                    0 <= t < j ==> (#[trigger] objects@[marks@[t] as int]).spec_options().delete,
                forall|q: int|
                    0 <= q < objects@.len() && (#[trigger] objects@[q]).spec_options().delete
                        ==> exists|t: int| 0 <= t < j && marks@[t] as int == q,
                forall|t1: int, t2: int|
                    0 <= t1 < t2 < marks@.len() ==> #[trigger] marks@[t1] < #[trigger] marks@[t2],
                objects@.filter(keep_fn()) == passed.filter(keep_fn()),
                forall|q: int|
                    0 <= q < objects@.len() ==> (#[trigger] objects@[q]).wf(),
            decreases j,
        {
            j -= 1;
            let idx = marks[j];
            let ghost before = objects@;
            objects.remove(idx);
            proof {
                lemma_filter_remove_dropped(before, idx as int);
                assert forall|q: int|
                    0 <= q < objects@.len() && (#[trigger] objects@[q]).spec_options().delete implies exists|t: int|
                    0 <= t < j && marks@[t] as int == q by {
                    if q < idx as int {
                        assert(objects@[q] == before[q]);
                        let t = choose|t: int|
                            0 <= t < j + 1 && marks@[t] as int == q;
                        assert(marks@[t] as int == q);
                        assert(t != j);
                        assert(0 <= t < j);
                    } else {
                        assert(objects@[q] == before[q + 1]);
                        let t = choose|t: int|
                            0 <= t < j + 1 && marks@[t] as int == q + 1;
                        assert(marks@[t] <= marks@[j as int]);
                        assert(false);
                    }
                }
                assert forall|t: int| 0 <= t < j implies (#[trigger] marks@[t] as int)
                    < objects@.len() && objects@[marks@[t] as int].spec_options().delete by {
                    assert(marks@[t] < marks@[j as int]);
                    assert(objects@[marks@[t] as int] == before[marks@[t] as int]);
                }
            }
        }
        proof {
            assert forall|q: int| 0 <= q < objects@.len() implies keep_fn()(
                #[trigger] objects@[q],
            ) by {
                if objects@[q].spec_options().delete {
                    let t = choose|t: int| 0 <= t < 0 && marks@[t] as int == q;
                    assert(false);
                }
            }
            lemma_filter_all_kept(objects@);
        }
        self.objects = objects;
        proof {
            let m1e = input_step(*old(self), primary_pressed, secondary_held);
            assert(m1 == m1e);
            let ste = base_step(m1, m1.base);
            let m2 = Menu { base: ste.0, cached_mouse_pos: ste.2, ..m1 };
            lemma_pass_agree(objs0, mstart, m2);
            lemma_pass_preserves(objs0, mstart);
            assert(self.objects@ == passed.filter(keep_fn()));
            assert(passed == total.0);
            assert(self.objects@ == pass_objects(ste.1, m2).0.filter(keep_fn()));
            assert forall|q: int| 0 <= q < self.objects@.len() implies (
            #[trigger] self.objects@[q]).wf() by {
                let elem = self.objects@[q];
                assert(passed.filter(keep_fn()).contains(elem)) by {
                    assert(passed.filter(keep_fn())[q] == elem);
                }
                passed.lemma_filter_contains_rev(keep_fn(), elem);
                let k = choose|k: int| 0 <= k < passed.len() && passed[k] == elem;
                assert(total.0[k].wf());
            }
            assert(self.wf());
        }
        cmds
    }
}

/// Translation keeps a widget well-formed and keeps its options.
pub proof fn lemma_translated_wf(o: MenuObject, dx: int, dy: int)
    requires
        o.wf(),
    ensures
        o.translated(dx, dy).wf(),
        o.translated(dx, dy).spec_options() == o.spec_options(),
{
    match o {
        MenuObject::CheckBox(b) => {},
        MenuObject::FilledBox(b) => {},
        MenuObject::OutlineBox(b) => {},
        MenuObject::FloatSlider(b) => {},
    }
}

/// The base step reads only the pointer state, the latches, and the widget
/// list, never the scene's own `base` field.
pub proof fn lemma_base_step_agnostic(a: Menu, b: Menu, base: filled_box::FilledBox)
    requires
        a.mouse_pos == b.mouse_pos,
        a.cached_mouse_pos == b.cached_mouse_pos,
        a.dragging == b.dragging,
        a.objects@ == b.objects@,
    ensures
        base_drag_blocked(a) == base_drag_blocked(b),
        base_step(a, base) == base_step(b, base),
{
    if base_drag_blocked(a) {
        let i = choose|i: int|
            0 <= i < a.objects@.len() && (#[trigger] a.objects@[i]).hit_at(a.mouse_pos);
        assert(b.objects@[i].hit_at(b.mouse_pos));
    }
    if base_drag_blocked(b) {
        let i = choose|i: int|
            0 <= i < b.objects@.len() && (#[trigger] b.objects@[i]).hit_at(b.mouse_pos);
        assert(a.objects@[i].hit_at(a.mouse_pos));
    }
}

/// The base step keeps the panel and every widget well-formed, keeps each
/// widget's options, and leaves the cached pointer within the coordinate
/// range.
pub proof fn lemma_base_step_preserves(m: Menu, base: filled_box::FilledBox)
    requires
        m.input_wf(),
        base.wf(),
        forall|i: int| 0 <= i < m.objects@.len() ==> (#[trigger] m.objects@[i]).wf(),
    ensures
        base_step(m, base).0.wf(),
        base_step(m, base).1.len() == m.objects@.len(),
        forall|j: int|
            0 <= j < m.objects@.len() ==> (#[trigger] base_step(m, base).1[j]).wf() && base_step(
                m,
                base,
            ).1[j].spec_options() == m.objects@[j].spec_options(),
        -COORD_LIMIT <= base_step(m, base).2.0 <= COORD_LIMIT,
        -COORD_LIMIT <= base_step(m, base).2.1 <= COORD_LIMIT,
{
    let st = base_step(m, base);
    let mpos = m.mouse_pos;
    let cpos = m.cached_mouse_pos;
    let dx = mpos.0 - cpos.0;
    let dy = mpos.1 - cpos.1;
    if !base_drag_blocked(m) && (mpos.0 != cpos.0 || mpos.1 != cpos.1) && rect_hit(
        base.rect,
        mpos,
    ) && m.dragging {
        assert forall|j: int| 0 <= j < m.objects@.len() implies (#[trigger] st.1[j]).wf()
            && st.1[j].spec_options() == m.objects@[j].spec_options() by {
            lemma_translated_wf(m.objects@[j], dx as int, dy as int);
        }
    }
}

/// The screen rectangle of a target window, as the platform reports it.
#[derive(Clone, Copy, Debug, PartialEq, Eq, Structural)]
pub struct TargetRect {
    pub left: i64,
    pub top: i64,
    pub right: i64,
    pub bottom: i64,
}

impl TargetRect {
    /// All four edges lie within the coordinate range.
    pub open spec fn wf(self) -> bool {
        &&& -COORD_LIMIT <= self.left <= COORD_LIMIT
        &&& -COORD_LIMIT <= self.top <= COORD_LIMIT
        &&& -COORD_LIMIT <= self.right <= COORD_LIMIT
        &&& -COORD_LIMIT <= self.bottom <= COORD_LIMIT
    }
}

/// The rectangle used when no target window is given.
pub open spec fn default_target_rect() -> TargetRect {
    TargetRect { left: 100, top: 100, right: 800, bottom: 800 }
}

/// The overlay's position and logical size for a target window rectangle:
/// the overlay sits at the target's top-left corner, 15px narrower and 40px
/// shorter than the target.  Without a target, a fixed default rectangle is
/// used.
pub fn overlay_placement(target: Option<TargetRect>) -> (r: ((i64, i64), (i64, i64)))
    requires
        match target {
            Some(t) => t.wf(),
            None => true,
        },
    ensures
        ({
            let t = match target {
                Some(t) => t,
                None => default_target_rect(),
            };
            r == ((t.left, t.top), ((t.right - t.left - 15) as i64, (t.bottom - t.top - 40) as i64))
        }),
{
    let t = match target {
        Some(t) => t,
        None => TargetRect { left: 100, top: 100, right: 800, bottom: 800 },
    };
    ((t.left, t.top), (t.right - t.left - 15, t.bottom - t.top - 40))
}

/// One whole child pass keeps every widget well-formed, keeps each widget's
/// options, and leaves the cached pointer within the coordinate range.
pub proof fn lemma_pass_preserves(objs: Seq<MenuObject>, m: Menu)
    requires
        forall|i: int| 0 <= i < objs.len() ==> (#[trigger] objs[i]).wf(),
        m.input_wf(),
    ensures
        pass_objects(objs, m).0.len() == objs.len(),
        forall|i: int|
            0 <= i < objs.len() ==> (#[trigger] pass_objects(objs, m).0[i]).wf()
                && pass_objects(objs, m).0[i].spec_options() == objs[i].spec_options(),
        -COORD_LIMIT <= pass_objects(objs, m).1.0 <= COORD_LIMIT,
        -COORD_LIMIT <= pass_objects(objs, m).1.1 <= COORD_LIMIT,
    decreases objs.len(),
{
    if objs.len() == 0 {
    } else {
        let (o2, cached2) = object_step(objs[0], m);
        lemma_click_preserves(objs[0], m);
        lemma_drag_preserves(objs[0].click_result(&m), m);
        let m2 = with_cached(m, cached2);
        lemma_pass_preserves(objs.drop_first(), m2);
        let (rest, cfin, rest_cmds) = pass_objects(objs.drop_first(), m2);
        assert(forall|i: int|
            0 <= i < objs.drop_first().len() ==> (#[trigger] objs.drop_first()[i]) == objs[i
                + 1]);
        assert(pass_objects(objs, m).0 == seq![o2] + rest);
        assert(forall|i: int|
            1 <= i < objs.len() ==> (#[trigger] pass_objects(objs, m).0[i]) == rest[i - 1]);
    }
}

} // verus!
