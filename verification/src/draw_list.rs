//! Draw commands: the output of a render pass.
//!
//! The scene engine never talks to a graphics backend directly.  Each frame it
//! appends `DrawCmd` values to a list; the caller submits them, in order, to
//! whatever backend it owns.  `CmdV` is the mathematical image of a command
//! used by the contracts.

use vstd::prelude::*;

use crate::Rect;
use crate::Vec4;
use crate::Vertex;

verus! {

/// One primitive for the graphics backend, in absolute screen coordinates.
#[derive(Debug, PartialEq)]
pub enum DrawCmd {
    /// Clear the whole frame to the given color.
    Clear { color: Vec4 },
    /// A filled axis-aligned rectangle.
    FilledRect { rect: Rect, color: Vec4 },
    /// The outline of an axis-aligned rectangle, stroked with the given width.
    OutlineRect { rect: Rect, color: Vec4, thickness: i64 },
    /// A connected strip of line segments through the given points.
    LineStrip { points: Vec<Vertex>, color: Vec4, thickness: i64 },
    /// Disconnected line segments: one per consecutive pair of points.
    Lines { points: Vec<Vertex>, color: Vec4, thickness: i64 },
    /// A text run anchored at `top_left`, rasterized by the backend.
    Text { top_left: Vertex, color: Vec4, scale: i64, text: String },
}

/// The value of a draw command, with point lists and text as sequences.
pub enum CmdV {
    Clear { color: Vec4 },
    FilledRect { rect: Rect, color: Vec4 },
    OutlineRect { rect: Rect, color: Vec4, thickness: i64 },
    LineStrip { points: Seq<Vertex>, color: Vec4, thickness: i64 },
    Lines { points: Seq<Vertex>, color: Vec4, thickness: i64 },
    Text { top_left: Vertex, color: Vec4, scale: i64, text: Seq<char> },
}

impl View for DrawCmd {
    type V = CmdV;

    open spec fn view(&self) -> CmdV {
        match self {
            DrawCmd::Clear { color } => CmdV::Clear { color: *color },
            DrawCmd::FilledRect { rect, color } => (CmdV::FilledRect {
                rect: *rect,
                color: *color,
            }),
            DrawCmd::OutlineRect { rect, color, thickness } => (CmdV::OutlineRect {
                rect: *rect,
                color: *color,
                thickness: *thickness,
            }),
            DrawCmd::LineStrip { points, color, thickness } => (CmdV::LineStrip {
                points: points@,
                color: *color,
                thickness: *thickness,
            }),
            DrawCmd::Lines { points, color, thickness } => (CmdV::Lines {
                points: points@,
                color: *color,
                thickness: *thickness,
            }),
            DrawCmd::Text { top_left, color, scale, text } => (CmdV::Text {
                top_left: *top_left,
                color: *color,
                scale: *scale,
                text: text@,
            }),
        }
    }
}

/// The view of each command in a list, in order.
pub open spec fn cmd_view_fn() -> spec_fn(DrawCmd) -> CmdV {
    |c: DrawCmd| c@
}

/// The values of a whole command list.
pub open spec fn cmds_view(s: Seq<DrawCmd>) -> Seq<CmdV> {
    s.map_values(cmd_view_fn())
}

/// Appending one command to a list appends its value to the list's view.
pub proof fn lemma_cmds_view_push(s: Seq<DrawCmd>, c: DrawCmd)
    ensures
        cmds_view(s.push(c)) == cmds_view(s).push(c@),
{
    s.lemma_push_map_commute(cmd_view_fn(), c);
}

} // verus!
