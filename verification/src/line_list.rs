//! A list of disconnected line segments.
//!
//! Not hit-testable: it only knows how to describe its geometry to the
//! backend.

use vstd::prelude::*;

use crate::draw_list::cmds_view;
use crate::draw_list::lemma_cmds_view_push;
use crate::draw_list::CmdV;
use crate::draw_list::DrawCmd;
use crate::Draw;
use crate::MenuOptions;
use crate::Options;
use crate::Vec4;
use crate::Vertex;

verus! {

/// Disconnected line segments: one per consecutive pair of points.
#[derive(Debug)]
pub struct LineList {
    pub options: MenuOptions,
    pub vertices: Vec<Vertex>,
    pub color: Vec4,
    pub thickness: i64,
}

impl LineList {
    pub fn new(options: MenuOptions, vertices: Vec<Vertex>, color: Vec4, thickness: i64) -> (l:
        LineList)
        ensures
            l == (LineList { options, vertices, color, thickness }),
    {
        LineList { options, vertices, color, thickness }
    }
}

impl Draw for LineList {
    open spec fn draw_req(&self) -> bool {
        true
    }

    open spec fn draw_view(&self) -> Seq<CmdV> {
        seq![
            CmdV::Lines { points: self.vertices@, color: self.color, thickness: self.thickness },
        ]
    }

    fn draw(&self, cmds: &mut Vec<DrawCmd>) {
        let points = self.vertices.clone();
        proof {
            assert(points@ =~= self.vertices@);
        }
        let cmd = DrawCmd::Lines { points, color: self.color, thickness: self.thickness };
        let ghost prior = cmds@;
        let ghost cmd_snapshot = cmd;
        cmds.push(cmd);
        proof {
            lemma_cmds_view_push(prior, cmd_snapshot);
            assert(cmds_view(prior).push(cmd_snapshot@) =~= cmds_view(prior)
                + self.draw_view());
        }
    }
}

impl Options for LineList {
    open spec fn spec_options(&self) -> MenuOptions {
        self.options
    }

    fn get_options(&self) -> (o: MenuOptions) {
        self.options
    }
}

} // verus!
