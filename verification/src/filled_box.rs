//! A filled colored rectangle, optionally captioned; also the base panel.

use vstd::prelude::*;

use crate::drag_rect;
use crate::draw_list::cmds_view;
use crate::draw_list::lemma_cmds_view_push;
use crate::draw_list::CmdV;
use crate::draw_list::DrawCmd;
use crate::label::label_cmds;
use crate::label::label_wf;
use crate::label::Label;
use crate::rect_hit;
use crate::Clicked;
use crate::Draggable;
use crate::Draw;
use crate::Hovering;
use crate::InBounds;
use crate::Menu;
use crate::MenuOptions;
use crate::Options;
use crate::Rect;
use crate::Vec4;

verus! {

/// A filled rectangle with an optional caption.
#[derive(Debug)]
pub struct FilledBox {
    pub options: MenuOptions,
    pub rect: Rect,
    pub color: Vec4,
    pub label: Option<Label>,
}

impl FilledBox {
    pub open spec fn wf(self) -> bool {
        self.rect.wf() && label_wf(self.label)
    }

    pub fn new(options: MenuOptions, rect: Rect, color: Vec4, label: Option<Label>) -> (b:
        FilledBox)
        ensures
            b == (FilledBox { options, rect, color, label }),
    {
        FilledBox { options, rect, color, label }
    }
}

impl Draw for FilledBox {
    open spec fn draw_req(&self) -> bool {
        self.rect.draw_ok() && label_wf(self.label)
    }

    open spec fn draw_view(&self) -> Seq<CmdV> {
        seq![CmdV::FilledRect { rect: self.rect, color: self.color }] + label_cmds(
            self.label,
            self.rect,
        )
    }

    fn draw(&self, cmds: &mut Vec<DrawCmd>) {
        let cmd = DrawCmd::FilledRect { rect: self.rect, color: self.color };
        let ghost prior = cmds@;
        let ghost cmd_snapshot = cmd;
        cmds.push(cmd);
        proof {
            lemma_cmds_view_push(prior, cmd_snapshot);
        }
        match &self.label {
            Some(l) => {
                l.draw(&self.rect, cmds);
                proof {
                    assert(cmds_view(prior).push(cmd_snapshot@).push(
                        l.text_view(self.rect),
                    ) =~= cmds_view(prior) + self.draw_view());
                }
            },
            None => {
                proof {
                    assert(cmds_view(prior).push(cmd_snapshot@) =~= cmds_view(prior)
                        + self.draw_view());
                }
            },
        }
    }
}

impl InBounds for FilledBox {
    open spec fn hit_at(&self, pos: (i64, i64)) -> bool {
        rect_hit(self.rect, pos)
    }

    open spec fn hit_req(&self) -> bool {
        self.rect.draw_ok()
    }

    fn in_bounds(&self, menu: &Menu) -> (r: bool) {
        self.rect.in_bounds(menu)
    }
}

impl Hovering for FilledBox {
    open spec fn hover_req(&self) -> bool {
        self.rect.wf()
    }

    open spec fn hover_view(&self, pos: (i64, i64)) -> Seq<CmdV> {
        self.rect.hover_view(pos)
    }

    fn is_hovering(&self, menu: &Menu, cmds: &mut Vec<DrawCmd>) {
        self.rect.is_hovering(menu, cmds);
    }
}

impl Clicked for FilledBox {
    open spec fn click_req(&self, menu: &Menu) -> bool {
        self.rect.draw_ok()
    }

    open spec fn click_hit(&self, menu: &Menu) -> bool {
        rect_hit(self.rect, menu.mouse_pos) && menu.clicked
    }

    open spec fn click_result(&self, menu: &Menu) -> FilledBox {
        *self
    }

    fn clicked(&mut self, menu: &Menu) -> (r: bool) {
        self.rect.in_bounds(menu) && menu.clicked
    }
}

impl Options for FilledBox {
    open spec fn spec_options(&self) -> MenuOptions {
        self.options
    }

    fn get_options(&self) -> (o: MenuOptions) {
        self.options
    }
}

impl Draggable for FilledBox {
    open spec fn drag_req(&self, menu: &Menu) -> bool {
        self.rect.wf() && menu.input_wf() && menu.base.rect.wf()
    }

    open spec fn drag_result(&self, menu: &Menu) -> (FilledBox, (i64, i64)) {
        let (r2, cached2) = drag_rect(self.rect, *menu);
        (FilledBox { rect: r2, ..*self }, cached2)
    }

    fn is_dragging(&mut self, menu: &mut Menu) {
        crate::apply_drag(&mut self.rect, menu);
    }
}

} // verus!
