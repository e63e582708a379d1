//! Scene entities: what is drawn, and the intents that create it.

use crate::command::RenderCommand;
use crate::registry::{share, Handle};
use crate::resource::{Material, Mesh};
use crate::submit::{draw_ops, push_draw, GpuOp};
use std::sync::Arc;
use vstd::prelude::*;

verus! {

/// A mesh drawn with a material.
pub struct Model {
    pub mesh: Arc<Mesh>,
    pub material: Arc<Material>,
}

/// A drawable entity of the scene; only visible ones are drawn.
pub struct Renderable {
    pub mesh: Arc<Mesh>,
    pub material: Arc<Material>,
    pub visible: bool,
}

/// A one-shot request to instantiate a mesh with a material.
#[derive(Clone, Copy, Debug, PartialEq, Eq, Structural)]
pub struct SpawnRenderable {
    pub mesh_handle: Handle,
    pub material_handle: Handle,
}

/// The draw that `mesh` with `material` asks for.
pub open spec fn draw_command(mesh: Mesh, material: Material) -> RenderCommand {
    RenderCommand {
        pipeline: material.pipeline,
        bind_groups: material.bind_groups,
        vertex_buffer: mesh.vertex_buffer,
        index_buffer: mesh.index_buffer,
        index_count: mesh.index_count,
    }
}

pub fn make_draw_command(mesh: &Mesh, material: &Material) -> (r: RenderCommand)
    ensures
        r == draw_command(*mesh, *material),
{
    RenderCommand {
        pipeline: material.pipeline,
        bind_groups: share(&material.bind_groups),
        vertex_buffer: mesh.vertex_buffer,
        index_buffer: mesh.index_buffer,
        index_count: mesh.index_count,
    }
}

impl Model {
    /// Appends the calls that draw this model on its own: its pipeline,
    /// its bind groups, its buffers and an indexed draw.
    pub fn render(&self, ops: &mut Vec<GpuOp>)
        ensures
            final(ops)@ == old(ops)@ + draw_ops(draw_command(*self.mesh, *self.material), true),
    {
        let cmd = make_draw_command(&self.mesh, &self.material);
        push_draw(ops, &cmd, true);
    }
}

} // verus!
