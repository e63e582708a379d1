//! GPU objects as the pipeline sees them: identities and plain values.
//!
//! A device backend keeps the real buffers, bind groups and pipelines in
//! tables and hands out their indices; two references are the same object
//! exactly when their indices are equal.

use std::sync::Arc;
use vstd::prelude::*;

verus! {

/// Identity of a render pipeline.
#[derive(Clone, Copy, Debug, PartialEq, Eq, Hash, Structural)]
pub struct PipelineRef(pub u64);

/// Identity of a bind group.
#[derive(Clone, Copy, Debug, PartialEq, Eq, Hash, Structural)]
pub struct BindGroupRef(pub u64);

/// Identity of a GPU buffer that already exists.
#[derive(Clone, Copy, Debug, PartialEq, Eq, Hash, Structural)]
pub struct BufferRef(pub u64);

/// A uniform buffer offered to the shader stages named by `visibility`
/// (a bit set of stages, as the device defines them).
#[derive(Clone, Copy, Debug, PartialEq, Eq, Structural)]
pub struct Binding {
    pub buffer: BufferRef,
    pub visibility: u32,
}

/// Compiled vertex and pixel shader binaries.
pub struct Shader {
    pub vertex_binary: Vec<u8>,
    pub pixel_binary: Vec<u8>,
}

impl Shader {
    pub fn new(vertex_binary: Vec<u8>, pixel_binary: Vec<u8>) -> (r: Shader)
        ensures
            r.vertex_binary@ == vertex_binary@,
            r.pixel_binary@ == pixel_binary@,
    {
        Shader { vertex_binary, pixel_binary }
    }
}

/// Immutable geometry: a vertex buffer, an index buffer and how many
/// indices to draw.
#[derive(Clone, Copy, Debug, PartialEq, Eq, Structural)]
pub struct Mesh {
    pub vertex_buffer: BufferRef,
    pub index_buffer: BufferRef,
    pub index_count: u32,
}

/// A pipeline together with the bind groups that its draws use, in slot
/// order.  Bind groups are shared with every draw emitted for it.
pub struct Material {
    pub pipeline: PipelineRef,
    pub bind_groups: Arc<Vec<BindGroupRef>>,
}

impl Material {
    pub fn new_arc(pipeline: PipelineRef, bind_groups: Vec<BindGroupRef>) -> (r: Arc<Material>)
        ensures
            r.pipeline == pipeline,
            r.bind_groups@ == bind_groups@,
    {
        Arc::new(Material { pipeline, bind_groups: Arc::new(bind_groups) })
    }
}

/// The index list of an imported primitive: the indices it carries, or
/// when it carries none, every vertex once in order.
pub fn primitive_indices(read: Option<Vec<u32>>, vertex_count: u32) -> (r: Vec<u32>)
    ensures
        match read {
            Some(v) => r@ == v@,
            None => r@ == Seq::new(vertex_count as nat, |i: int| i as u32),
        },
{
    match read {
        Some(v) => v,
        None => {
            let mut r: Vec<u32> = Vec::new();
            let mut i: u32 = 0;
            while i < vertex_count
                invariant
                    i <= vertex_count,
                    r@ == Seq::new(i as nat, |k: int| k as u32),
                decreases vertex_count - i,
            {
                r.push(i);
                i = i + 1;
                assert(r@ =~= Seq::new(i as nat, |k: int| k as u32));
            }
            r
        },
    }
}

} // verus!
