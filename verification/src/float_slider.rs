//! A horizontal value slider.
//!
//! The slider owns an integer value cell kept within `[min, max]`.  A
//! qualifying click maps the pointer's horizontal position within the track
//! linearly onto the range; the track and a marker at the current value are
//! drawn every frame.

use vstd::prelude::*;

use crate::drag_rect;
use crate::draw_list::cmds_view;
use crate::draw_list::lemma_cmds_view_push;
use crate::draw_list::CmdV;
use crate::draw_list::DrawCmd;
use crate::label::label_cmds;
use crate::label::label_wf;
use crate::label::Label;
use crate::rect_hit;
use crate::Clicked;
use crate::Draggable;
use crate::Draw;
use crate::Hovering;
use crate::InBounds;
use crate::Menu;
use crate::MenuOptions;
use crate::Options;
use crate::Rect;
use crate::Vec4;
use crate::Vertex;
use crate::COORD_LIMIT;
use vstd::arithmetic::div_mod::lemma_div_is_ordered;
use vstd::arithmetic::div_mod::lemma_div_multiples_vanish;
use vstd::arithmetic::div_mod::lemma_div_pos_is_pos;
use vstd::arithmetic::mul::lemma_mul_inequality;

verus! {

/// A slider with an owned value cell and a `[min, max]` range.
#[derive(Debug)]
pub struct FloatSlider {
    pub options: MenuOptions,
    pub rect: Rect,
    pub color: Vec4,
    /// The value the slider reports and updates; stays in `[min, max]`.
    pub value: i64,
    pub min: i64,
    pub max: i64,
    pub label: Option<Label>,
}

impl FloatSlider {
    pub open spec fn range_wf(self) -> bool {
        &&& -COORD_LIMIT <= self.min
        &&& self.min <= self.value <= self.max
        &&& self.max <= COORD_LIMIT
    }

    pub open spec fn wf(self) -> bool {
        self.rect.wf() && self.range_wf() && label_wf(self.label)
    }

    pub fn new(
        options: MenuOptions,
        rect: Rect,
        color: Vec4,
        value: i64,
        min: i64,
        max: i64,
        label: Option<Label>,
    ) -> (s: FloatSlider)
        requires
            -COORD_LIMIT <= min,
            min <= value <= max,
            max <= COORD_LIMIT,
        ensures
            s == (FloatSlider { options, rect, color, value, min, max, label }),
    {
        FloatSlider { options, rect, color, value, min, max, label }
    }

    /// The horizontal position of the value marker: the track's left edge
    /// offset by the value's fraction of the range.
    pub open spec fn marker_x(self) -> int {
        if self.max > self.min {
            self.rect.top_left.x + (self.value - self.min) * self.rect.width / (self.max
                - self.min)
        } else {
            self.rect.top_left.x as int
        }
    }

    /// The value a click at horizontal pointer position `mx` picks: the
    /// pointer's fraction of the track mapped linearly onto `[min, max]`.
    pub open spec fn pick(self, mx: int) -> int {
        if self.max > self.min && self.rect.width > 0 {
            self.min + (mx - self.rect.top_left.x) * (self.max - self.min) / (
            self.rect.width as int)
        } else {
            self.min as int
        }
    }
}

impl Draw for FloatSlider {
    open spec fn draw_req(&self) -> bool {
        self.rect.draw_ok() && self.range_wf() && label_wf(self.label)
    }

    open spec fn draw_view(&self) -> Seq<CmdV> {
        seq![CmdV::FilledRect { rect: self.rect, color: self.color }, CmdV::Lines {
            points: seq![
                Vertex { x: self.marker_x() as i64, y: self.rect.top_left.y },
                Vertex {
                    x: self.marker_x() as i64,
                    y: (self.rect.top_left.y + self.rect.height) as i64,
                },
            ],
            color: crate::accent_color(),
            thickness: 4,
        }] + label_cmds(self.label, self.rect)
    }

    fn draw(&self, cmds: &mut Vec<DrawCmd>) {
        let cmd = DrawCmd::FilledRect { rect: self.rect, color: self.color };
        let ghost prior = cmds@;
        let ghost cmd_snapshot = cmd;
        cmds.push(cmd);
        proof {
            lemma_cmds_view_push(prior, cmd_snapshot);
        }
        let range = self.max - self.min;
        let kx = if range > 0 {
            proof {
                assert(0 <= (self.value - self.min) * self.rect.width && (self.value - self.min)
                    * self.rect.width <= 2_100_000_000_000_000_000) by (nonlinear_arith)
                    requires
                        0 <= self.value - self.min <= 2_000_000_000,
                        0 <= self.rect.width <= 1_000_000_008,
                ;
                lemma_mul_inequality(
                    self.value - self.min,
                    self.max - self.min,
                    self.rect.width as int,
                );
                lemma_div_is_ordered(
                    (self.value - self.min) * self.rect.width,
                    (self.max - self.min) * self.rect.width,
                    self.max - self.min,
                );
                lemma_div_multiples_vanish(self.rect.width as int, self.max - self.min);
                lemma_div_pos_is_pos((self.value - self.min) * self.rect.width, self.max - self.min);
            }
            let frac = (((self.value - self.min) as u64) * (self.rect.width as u64) / (
            range as u64)) as i64;
            self.rect.top_left.x + frac
        } else {
            self.rect.top_left.x
        };
        let marker_points: Vec<Vertex> = vec![
            Vertex { x: kx, y: self.rect.top_left.y },
            Vertex { x: kx, y: self.rect.top_left.y + self.rect.height },
        ];
        let ghost marker_snapshot = marker_points@;
        let marker = DrawCmd::Lines {
            points: marker_points,
            color: Vec4::new(255, 0, 0, 255),
            thickness: 4,
        };
        let ghost marker_cmd_snapshot = marker;
        let ghost mid = cmds@;
        cmds.push(marker);
        proof {
            lemma_cmds_view_push(mid, marker_cmd_snapshot);
        }
        match &self.label {
            Some(l) => {
                l.draw(&self.rect, cmds);
            },
            None => {
            },
        }
        proof {
            assert(cmds_view(cmds@) =~= cmds_view(prior) + self.draw_view());
        }
    }
}

impl InBounds for FloatSlider {
    open spec fn hit_at(&self, pos: (i64, i64)) -> bool {
        rect_hit(self.rect, pos)
    }

    open spec fn hit_req(&self) -> bool {
        self.rect.draw_ok()
    }

    fn in_bounds(&self, menu: &Menu) -> (r: bool) {
        self.rect.in_bounds(menu)
    }
}

impl Hovering for FloatSlider {
    open spec fn hover_req(&self) -> bool {
        self.rect.wf()
    }

    open spec fn hover_view(&self, pos: (i64, i64)) -> Seq<CmdV> {
        self.rect.hover_view(pos)
    }

    fn is_hovering(&self, menu: &Menu, cmds: &mut Vec<DrawCmd>) {
        self.rect.is_hovering(menu, cmds);
    }
}

impl Clicked for FloatSlider {
    open spec fn click_req(&self, menu: &Menu) -> bool {
        self.rect.draw_ok() && self.range_wf() && menu.input_wf()
    }

    open spec fn click_hit(&self, menu: &Menu) -> bool {
        rect_hit(self.rect, menu.mouse_pos) && menu.clicked
    }

    open spec fn click_result(&self, menu: &Menu) -> FloatSlider {
        if self.click_hit(menu) {
            FloatSlider { value: self.pick(menu.mouse_pos.0 as int) as i64, ..*self }
        } else {
            *self
        }
    }

    fn clicked(&mut self, menu: &Menu) -> (r: bool) {
        if self.rect.in_bounds(menu) && menu.clicked {
            let range = self.max - self.min;
            if range > 0 {
                let dx = menu.mouse_pos.0 - self.rect.top_left.x;
                proof {
                    assert(0 <= dx * range && dx * range <= 2_100_000_000_000_000_000)
                        by (nonlinear_arith)
                        requires
                            0 <= dx <= 1_000_000_008,
                            0 <= range <= 2_000_000_000,
                    ;
                    lemma_mul_inequality(dx as int, self.rect.width as int, range as int);
                    lemma_div_is_ordered(
                        dx * range,
                        self.rect.width * range,
                        self.rect.width as int,
                    );
                    lemma_div_multiples_vanish(range as int, self.rect.width as int);
                    lemma_div_pos_is_pos(dx * range, self.rect.width as int);
                }
                let frac = ((dx as u64) * (range as u64) / (self.rect.width as u64)) as i64;
                self.value = self.min + frac;
            } else {
                self.value = self.min;
            }
            true
        } else {
            false
        }
    }
}

impl Options for FloatSlider {
    open spec fn spec_options(&self) -> MenuOptions {
        self.options
    }

    fn get_options(&self) -> (o: MenuOptions) {
        self.options
    }
}

impl Draggable for FloatSlider {
    open spec fn drag_req(&self, menu: &Menu) -> bool {
        self.rect.wf() && menu.input_wf() && menu.base.rect.wf()
    }

    open spec fn drag_result(&self, menu: &Menu) -> (FloatSlider, (i64, i64)) {
        let (r2, cached2) = drag_rect(self.rect, *menu);
        (FloatSlider { rect: r2, ..*self }, cached2)
    }

    fn is_dragging(&mut self, menu: &mut Menu) {
        crate::apply_drag(&mut self.rect, menu);
    }
}

} // verus!
