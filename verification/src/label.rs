//! Caption labels.
//!
//! A label has no rectangle of its own: every frame its draw position is
//! recomputed from a host widget's rectangle, an anchor direction, and a
//! distance scale given in thousandths of the host's extent.

use vstd::prelude::*;

use crate::draw_list::cmds_view;
use crate::draw_list::CmdV;
use crate::draw_list::DrawCmd;
use crate::Rect;
use crate::Vec4;
use crate::Vertex;
use crate::COORD_LIMIT;
use vstd::string::StringExecFns;

verus! {

/// Where a label sits relative to its host rectangle.
#[derive(Clone, Copy, Debug, PartialEq, Eq, Structural)]
pub enum Direction {
    Top,
    Left,
    Right,
    Bottom,
}

/// Largest accepted distance scale: a thousand host-heights away.
pub const DIST_SCALE_LIMIT: i64 = 1_000_000;

/// A text caption drawn relative to a host widget's rectangle.
#[derive(Debug)]
pub struct Label {
    pub color: Vec4,
    pub direction: Direction,
    pub text: String,
    /// Font scale, passed through to the backend untouched.
    pub scale: i64,
    /// Distance from the host, in thousandths of the host's extent.
    pub dist_scale: i64,
}

impl Label {
    /// The distance scale stays in a range that keeps the anchor arithmetic
    /// within machine bounds.
    pub open spec fn wf(self) -> bool {
        0 <= self.dist_scale <= DIST_SCALE_LIMIT
    }

    /// The draw position for a label on the given host rectangle: offset from
    /// the host's corner by `dist_scale` thousandths of the host's extent, in
    /// the anchor direction.
    pub open spec fn anchor_pos(self, rect: Rect) -> Vertex {
        let x = rect.top_left.x;
        let y = rect.top_left.y;
        match self.direction {
            Direction::Top => Vertex { x, y: (y - rect.height * self.dist_scale / 1000) as i64 },
            Direction::Left => (Vertex {
                x: (x - rect.width) as i64,
                y: (y + rect.height * self.dist_scale / 1000) as i64,
            }),
            Direction::Right => (Vertex {
                x: (x + rect.width) as i64,
                y: (y + rect.height * self.dist_scale / 1000) as i64,
            }),
            Direction::Bottom => (Vertex {
                x,
                y: (y + rect.height * (self.dist_scale + 1000) / 1000) as i64,
            }),
        }
    }

    /// The command a draw of this label on the given host emits.
    pub open spec fn text_view(self, rect: Rect) -> CmdV {
        CmdV::Text {
            top_left: self.anchor_pos(rect),
            color: self.color,
            scale: self.scale,
            text: self.text@,
        }
    }

    pub fn new(color: Vec4, direction: Direction, text: &str, scale: i64, dist_scale: i64) -> (l:
        Label)
        ensures
            l.color == color,
            l.direction == direction,
            l.text@ == text@,
            l.scale == scale,
            l.dist_scale == dist_scale,
    {
        Label { color, direction, text: String::from_str(text), scale, dist_scale }
    }

    /// Emit this label's text command, positioned relative to the host `rect`.
    pub fn draw(&self, rect: &Rect, cmds: &mut Vec<DrawCmd>)
        requires
            self.wf(),
            rect.draw_ok(),
        ensures
            cmds_view(final(cmds)@) == cmds_view(old(cmds)@).push(self.text_view(*rect)),
    {
        let x = rect.top_left.x;
        let y = rect.top_left.y;
        let pos = match self.direction {
            Direction::Top => {
                let off = scaled_offset(rect.height, self.dist_scale);
                Vertex { x, y: y - off }
            },
            Direction::Left => {
                let off = scaled_offset(rect.height, self.dist_scale);
                Vertex { x: x - rect.width, y: y + off }
            },
            Direction::Right => {
                let off = scaled_offset(rect.height, self.dist_scale);
                Vertex { x: x + rect.width, y: y + off }
            },
            Direction::Bottom => {
                let off = scaled_offset(rect.height, self.dist_scale + 1000);
                Vertex { x, y: y + off }
            },
        };
        let cmd = DrawCmd::Text {
            top_left: pos,
            color: self.color,
            scale: self.scale,
            text: self.text.clone(),
        };
        let ghost prior = cmds@;
        let ghost cmd_snapshot = cmd;
        cmds.push(cmd);
        proof {
            crate::draw_list::lemma_cmds_view_push(prior, cmd_snapshot);
        }
    }
}

/// Well-formedness of a widget's optional caption.
pub open spec fn label_wf(l: Option<Label>) -> bool {
    match l {
        Some(lab) => lab.wf(),
        None => true,
    }
}

/// The commands a widget's optional caption emits for the given host.
pub open spec fn label_cmds(l: Option<Label>, host: Rect) -> Seq<CmdV> {
    match l {
        Some(lab) => seq![lab.text_view(host)],
        None => Seq::empty(),
    }
}

/// `extent * scale / 1000`, the anchor offset for a label distance scale.
fn scaled_offset(extent: i64, scale: i64) -> (off: i64)
    requires
        0 <= extent <= COORD_LIMIT + 8,
        0 <= scale <= DIST_SCALE_LIMIT + 1000,
    ensures
        off == extent * scale / 1000,
        0 <= off <= 0x4_0000_0000_0000,
{
    proof {
        assert(extent * scale <= 1_100_000_000_000_000) by (nonlinear_arith)
            requires
                0 <= extent <= 1_000_000_008,
                0 <= scale <= 1_001_000,
        ;
        assert(extent * scale >= 0) by (nonlinear_arith)
            requires
                0 <= extent,
                0 <= scale,
        ;
    }
    ((extent as u64) * (scale as u64) / 1000) as i64
}

} // verus!
