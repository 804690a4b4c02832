//! A stroked rectangle outline.

use vstd::prelude::*;

use crate::draw_list::cmds_view;
use crate::draw_list::lemma_cmds_view_push;
use crate::draw_list::CmdV;
use crate::draw_list::DrawCmd;
use crate::drag_rect;
use crate::rect_hit;
use crate::Clicked;
use crate::Draggable;
use crate::Draw;
use crate::Hovering;
use crate::InBounds;
use crate::Menu;
use crate::MenuOptions;
use crate::Options;
use crate::Rect;
use crate::Vec4;

verus! {

/// A rectangle outline with a stroke thickness.
#[derive(Debug)]
pub struct OutlineBox {
    pub options: MenuOptions,
    pub rect: Rect,
    pub color: Vec4,
    pub thickness: i64,
}

impl OutlineBox {
    pub open spec fn wf(self) -> bool {
        self.rect.wf()
    }

    pub fn new(options: MenuOptions, rect: Rect, color: Vec4, thickness: i64) -> (b: OutlineBox)
        ensures
            b == (OutlineBox { options, rect, color, thickness }),
    {
        OutlineBox { options, rect, color, thickness }
    }
}

impl Draw for OutlineBox {
    open spec fn draw_req(&self) -> bool {
        true
    }

    open spec fn draw_view(&self) -> Seq<CmdV> {
        seq![
            CmdV::OutlineRect { rect: self.rect, color: self.color, thickness: self.thickness },
        ]
    }

    fn draw(&self, cmds: &mut Vec<DrawCmd>) {
        let cmd = DrawCmd::OutlineRect {
            rect: self.rect,
            color: self.color,
            thickness: self.thickness,
        };
        let ghost prior = cmds@;
        let ghost cmd_snapshot = cmd;
        cmds.push(cmd);
        proof {
            lemma_cmds_view_push(prior, cmd_snapshot);
            assert(cmds_view(prior).push(cmd_snapshot@) =~= cmds_view(prior)
                + self.draw_view());
        }
    }
}

impl InBounds for OutlineBox {
    open spec fn hit_at(&self, pos: (i64, i64)) -> bool {
        rect_hit(self.rect, pos)
    }

    open spec fn hit_req(&self) -> bool {
        self.rect.draw_ok()
    }

    fn in_bounds(&self, menu: &Menu) -> (r: bool) {
        self.rect.in_bounds(menu)
    }
}

impl Hovering for OutlineBox {
    open spec fn hover_req(&self) -> bool {
        self.rect.wf()
    }

    open spec fn hover_view(&self, pos: (i64, i64)) -> Seq<CmdV> {
        self.rect.hover_view(pos)
    }

    fn is_hovering(&self, menu: &Menu, cmds: &mut Vec<DrawCmd>) {
        self.rect.is_hovering(menu, cmds);
    }
}

impl Clicked for OutlineBox {
    open spec fn click_req(&self, menu: &Menu) -> bool {
        self.rect.draw_ok()
    }

    open spec fn click_hit(&self, menu: &Menu) -> bool {
        rect_hit(self.rect, menu.mouse_pos) && menu.clicked
    }

    open spec fn click_result(&self, menu: &Menu) -> OutlineBox {
        *self
    }

    fn clicked(&mut self, menu: &Menu) -> (r: bool) {
        self.rect.in_bounds(menu) && menu.clicked
    }
}

impl Options for OutlineBox {
    open spec fn spec_options(&self) -> MenuOptions {
        self.options
    }

    fn get_options(&self) -> (o: MenuOptions) {
        self.options
    }
}

impl Draggable for OutlineBox {
    open spec fn drag_req(&self, menu: &Menu) -> bool {
        self.rect.wf() && menu.input_wf() && menu.base.rect.wf()
    }

    open spec fn drag_result(&self, menu: &Menu) -> (OutlineBox, (i64, i64)) {
        let (r2, cached2) = drag_rect(self.rect, *menu);
        (OutlineBox { rect: r2, ..*self }, cached2)
    }

    fn is_dragging(&mut self, menu: &mut Menu) {
        crate::apply_drag(&mut self.rect, menu);
    }
}

} // verus!
