//! A toggleable checkbox.
//!
//! The checkbox owns a boolean cell; a qualifying click flips it exactly
//! once, and the caller reads the cell back from the scene after the frame.

use vstd::prelude::*;

use crate::drag_rect;
use crate::draw_list::cmds_view;
use crate::draw_list::lemma_cmds_view_push;
use crate::draw_list::CmdV;
use crate::draw_list::DrawCmd;
use crate::label::label_cmds;
use crate::label::label_wf;
use crate::label::Label;
use crate::rect_hit;
use crate::Clicked;
use crate::Draggable;
use crate::Draw;
use crate::Hovering;
use crate::InBounds;
use crate::Menu;
use crate::MenuOptions;
use crate::Options;
use crate::Rect;
use crate::Vec4;
use crate::Vertex;
use crate::COORD_LIMIT;
use vstd::arithmetic::div_mod::lemma_div_is_ordered;
use vstd::arithmetic::div_mod::lemma_div_multiples_vanish;
use vstd::arithmetic::div_mod::lemma_div_pos_is_pos;
use vstd::arithmetic::mul::lemma_mul_inequality;

verus! {

/// A checkbox with an owned boolean cell and an optional caption.
#[derive(Debug)]
pub struct CheckBox {
    pub options: MenuOptions,
    pub rect: Rect,
    pub color: Vec4,
    /// The boolean the checkbox reports and toggles.
    pub checked: bool,
    pub label: Option<Label>,
}

/// The three corners of the checkmark stroke, at fixed fractions of the box.
pub open spec fn check_points(r: Rect) -> Seq<Vertex> {
    seq![
        Vertex {
            x: (r.top_left.x + r.width * 20 / 100) as i64,
            y: (r.top_left.y + r.height * 60 / 100) as i64,
        },
        Vertex {
            x: (r.top_left.x + r.width * 50 / 100) as i64,
            y: (r.top_left.y + r.height * 90 / 100) as i64,
        },
        Vertex {
            x: (r.top_left.x + r.width * 95 / 100) as i64,
            y: (r.top_left.y + r.height * 5 / 100) as i64,
        },
    ]
}

/// `size * pct / 100`, the checkmark corner offset within a box edge.
fn edge_frac(size: i64, pct: i64) -> (q: i64)
    requires
        0 <= size <= COORD_LIMIT + 8,
        0 <= pct <= 100,
    ensures
        q == size * pct / 100,
        0 <= q <= size,
{
    proof {
        assert(0 <= size * pct && size * pct <= size * 100) by (nonlinear_arith)
            requires
                0 <= size,
                0 <= pct <= 100,
        ;
        lemma_div_pos_is_pos(size * pct, 100);
        lemma_div_is_ordered(size * pct, size * 100, 100);
        lemma_div_multiples_vanish(size as int, 100);
    }
    ((size as u64) * (pct as u64) / 100) as i64
}

impl CheckBox {
    pub open spec fn wf(self) -> bool {
        self.rect.wf() && label_wf(self.label)
    }

    /// The checkbox with its boolean cell flipped.
    pub open spec fn toggled(self) -> CheckBox {
        CheckBox { checked: !self.checked, ..self }
    }

    pub fn new(
        options: MenuOptions,
        rect: Rect,
        color: Vec4,
        checked: bool,
        label: Option<Label>,
    ) -> (b: CheckBox)
        ensures
            b == (CheckBox { options, rect, color, checked, label }),
    {
        CheckBox { options, rect, color, checked, label }
    }

    /// Flip the boolean cell.
    pub fn do_toggle(&mut self)
        ensures
            *final(self) == old(self).toggled(),
    {
        self.checked = !self.checked;
    }

    /// Emit the checkmark stroke: a three-point line strip in the accent
    /// color.
    fn draw_check(&self, cmds: &mut Vec<DrawCmd>)
        requires
            self.rect.draw_ok(),
        ensures
            cmds_view(final(cmds)@) == cmds_view(old(cmds)@).push(
                CmdV::LineStrip {
                    points: check_points(self.rect),
                    color: crate::accent_color(),
                    thickness: 4,
                },
            ),
    {
        let x = self.rect.top_left.x;
        let y = self.rect.top_left.y;
        let points: Vec<Vertex> = vec![
            Vertex { x: x + edge_frac(self.rect.width, 20), y: y + edge_frac(self.rect.height, 60) },
            Vertex { x: x + edge_frac(self.rect.width, 50), y: y + edge_frac(self.rect.height, 90) },
            Vertex { x: x + edge_frac(self.rect.width, 95), y: y + edge_frac(self.rect.height, 5) },
        ];
        let ghost points_snapshot = points@;
        let cmd = DrawCmd::LineStrip { points, color: Vec4::new(255, 0, 0, 255), thickness: 4 };
        let ghost prior = cmds@;
        let ghost cmd_snapshot = cmd;
        cmds.push(cmd);
        proof {
            lemma_cmds_view_push(prior, cmd_snapshot);
            assert(points_snapshot =~= check_points(self.rect));
        }
    }
}

impl Draw for CheckBox {
    open spec fn draw_req(&self) -> bool {
        self.rect.draw_ok() && label_wf(self.label)
    }

    open spec fn draw_view(&self) -> Seq<CmdV> {
        seq![CmdV::FilledRect { rect: self.rect, color: self.color }] + (if self.checked {
            seq![
                CmdV::LineStrip {
                    points: check_points(self.rect),
                    color: crate::accent_color(),
                    thickness: 4,
                },
            ]
        } else {
            Seq::empty()
        }) + label_cmds(self.label, self.rect)
    }

    fn draw(&self, cmds: &mut Vec<DrawCmd>) {
        let cmd = DrawCmd::FilledRect { rect: self.rect, color: self.color };
        let ghost prior = cmds@;
        let ghost cmd_snapshot = cmd;
        cmds.push(cmd);
        proof {
            lemma_cmds_view_push(prior, cmd_snapshot);
        }
        if self.checked {
            self.draw_check(cmds);
        }
        match &self.label {
            Some(l) => {
                l.draw(&self.rect, cmds);
            },
            None => {
            },
        }
        proof {
            assert(cmds_view(cmds@) =~= cmds_view(prior) + self.draw_view());
        }
    }
}

impl InBounds for CheckBox {
    open spec fn hit_at(&self, pos: (i64, i64)) -> bool {
        rect_hit(self.rect, pos)
    }

    open spec fn hit_req(&self) -> bool {
        self.rect.draw_ok()
    }

    fn in_bounds(&self, menu: &Menu) -> (r: bool) {
        self.rect.in_bounds(menu)
    }
}

impl Hovering for CheckBox {
    open spec fn hover_req(&self) -> bool {
        self.rect.wf()
    }

    open spec fn hover_view(&self, pos: (i64, i64)) -> Seq<CmdV> {
        self.rect.hover_view(pos)
    }

    fn is_hovering(&self, menu: &Menu, cmds: &mut Vec<DrawCmd>) {
        self.rect.is_hovering(menu, cmds);
    }
}

impl Clicked for CheckBox {
    open spec fn click_req(&self, menu: &Menu) -> bool {
        self.rect.draw_ok()
    }

    open spec fn click_hit(&self, menu: &Menu) -> bool {
        rect_hit(self.rect, menu.mouse_pos) && menu.clicked
    }

    open spec fn click_result(&self, menu: &Menu) -> CheckBox {
        if self.click_hit(menu) {
            self.toggled()
        } else {
            *self
        }
    }

    fn clicked(&mut self, menu: &Menu) -> (r: bool) {
        if self.rect.in_bounds(menu) && menu.clicked {
            self.do_toggle();
            true
        } else {
            false
        }
    }
}

impl Options for CheckBox {
    open spec fn spec_options(&self) -> MenuOptions {
        self.options
    }

    fn get_options(&self) -> (o: MenuOptions) {
        self.options
    }
}

impl Draggable for CheckBox {
    open spec fn drag_req(&self, menu: &Menu) -> bool {
        self.rect.wf() && menu.input_wf() && menu.base.rect.wf()
    }

    open spec fn drag_result(&self, menu: &Menu) -> (CheckBox, (i64, i64)) {
        let (r2, cached2) = drag_rect(self.rect, *menu);
        (CheckBox { rect: r2, ..*self }, cached2)
    }

    fn is_dragging(&mut self, menu: &mut Menu) {
        crate::apply_drag(&mut self.rect, menu);
    }
}

} // verus!
