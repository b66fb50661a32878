use vstd::prelude::*;

use crate::types::{Color, CompositeOperationState, FillRule, ImageId, Params};

verus! {

/// Vertex ranges `(start, count)` of one path's fill and stroke triangle lists.
#[derive(Copy, Clone, Debug)]
pub struct Drawable {
    pub fill_verts: Option<(usize, usize)>,
    pub stroke_verts: Option<(usize, usize)>,
}

impl Default for Drawable {
    fn default() -> (r: Drawable)
        ensures
            r.fill_verts.is_none(),
            r.stroke_verts.is_none(),
    {
        Drawable { fill_verts: None, stroke_verts: None }
    }
}

/// The kind of a command, with the data that the kind needs.
#[derive(Copy, Clone, Debug, PartialEq, Eq, Structural)]
pub enum CommandType {
    ClearRect { x: u32, y: u32, width: u32, height: u32, color: Color },
    ConvexFill { params: Params },
    ConcaveFill { stencil_params: Params, fill_params: Params },
    Stroke { params: Params },
    StencilStroke { params1: Params, params2: Params },
    Triangles { params: Params },
}

/// One drawing operation of a batch.
#[derive(Clone, Debug)]
pub struct Command {
    pub cmd_type: CommandType,
    pub drawables: Vec<Drawable>,
    pub triangles_verts: Option<(usize, usize)>,
    pub image: Option<ImageId>,
    pub alpha_mask: Option<ImageId>,
    pub fill_rule: FillRule,
    pub composite_operation: CompositeOperationState,
}

impl Command {
    /// A command of the given kind with no geometry, no images, the nonzero
    /// fill rule and source-over compositing.
    pub fn new(flavor: CommandType) -> (r: Command)
        ensures
            r.cmd_type == flavor,
            r.drawables@.len() == 0,
            r.triangles_verts.is_none(),
            r.image.is_none(),
            r.alpha_mask.is_none(),
            r.fill_rule == FillRule::NonZero,
            r.composite_operation == CompositeOperationState::source_over(),
    {
        Command {
            cmd_type: flavor,
            drawables: Vec::new(),
            triangles_verts: None,
            image: None,
            alpha_mask: None,
            fill_rule: FillRule::default(),
            composite_operation: CompositeOperationState::default(),
        }
    }
}

} // verus!
