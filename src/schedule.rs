//! The routines that the frame scheduler runs.  None of them touches the
//! GPU: the startup routine fills the scene, and the render-phase routines
//! only push commands.

use crate::camera::{writes_uniform, Camera};
use crate::command::{CommandQueue, RenderCommand, WriteBufferCommand};
use crate::registry::AssetRegistry;
use crate::resource::{Material, Mesh};
use crate::scene::{draw_command, make_draw_command, Renderable, SpawnRenderable};
use std::sync::Arc;
use vstd::prelude::*;

verus! {

/// The renderables that `events` create: one per event whose mesh and
/// material handles both resolve, visible, in event order.
pub open spec fn spawned(
    meshes: Map<u64, Arc<Mesh>>,
    materials: Map<u64, Arc<Material>>,
    events: Seq<SpawnRenderable>,
) -> Seq<Renderable>
    decreases events.len(),
{
    if events.len() == 0 {
        Seq::empty()
    } else {
        let before = spawned(meshes, materials, events.drop_last());
        let e = events.last();
        if meshes.contains_key(e.mesh_handle.0) && materials.contains_key(e.material_handle.0) {
            before.push(
                Renderable {
                    mesh: meshes[e.mesh_handle.0],
                    material: materials[e.material_handle.0],
                    visible: true,
                },
            )
        } else {
            before
        }
    }
}

/// The draws that the visible renderables of `rs` ask for, in order.
pub open spec fn render_intents(rs: Seq<Renderable>) -> Seq<RenderCommand>
    decreases rs.len(),
{
    if rs.len() == 0 {
        Seq::empty()
    } else {
        let before = render_intents(rs.drop_last());
        let r = rs.last();
        if r.visible {
            before.push(draw_command(*r.mesh, *r.material))
        } else {
            before
        }
    }
}

/// `after` is `before` followed by one uniform write per camera, in order.
pub open spec fn camera_writes_queued(
    before: Seq<WriteBufferCommand>,
    after: Seq<WriteBufferCommand>,
    cameras: Seq<Camera>,
) -> bool {
    &&& after.len() == before.len() + cameras.len()
    &&& after.subrange(0, before.len() as int) == before
    &&& forall|i: int| 0 <= i < cameras.len() ==> writes_uniform(#[trigger] after[before.len() + i], cameras[i])
}

/// Startup routine: turns spawn intents into renderables.  An intent whose
/// mesh or material does not resolve is skipped.
pub fn spawn_gltf_system(
    meshes: &AssetRegistry<Mesh>,
    materials: &AssetRegistry<Material>,
    events: &Vec<SpawnRenderable>,
    renderables: &mut Vec<Renderable>,
)
    ensures
        final(renderables)@ == old(renderables)@ + spawned(meshes.assets(), materials.assets(), events@),
{
    let mut i: usize = 0;
    while i < events.len()
        invariant
            i <= events.len(),
            renderables@ == old(renderables)@ + spawned(meshes.assets(), materials.assets(), events@.subrange(0, i as int)),
        decreases events.len() - i,
    {
        let e = events[i];
        let ghost done = renderables@;
        proof {
            let s = events@.subrange(0, i + 1);
            assert(s.drop_last() == events@.subrange(0, i as int));
            assert(s.last() == e);
        }
        match (meshes.get(e.mesh_handle), materials.get(e.material_handle)) {
            (Some(mesh), Some(material)) => {
                renderables.push(Renderable { mesh, material, visible: true });
            },
            _ => {},
        }
        i = i + 1;
    }
    assert(events@.subrange(0, events.len() as int) == events@);
}

/// Camera-sync routine: queues a write of each camera's current matrix to
/// the start of its uniform buffer.
pub fn camera_main_uniform_system(cameras: &Vec<Camera>, queue: &mut CommandQueue<WriteBufferCommand>)
    ensures
        camera_writes_queued(old(queue)@, final(queue)@, cameras@),
{
    let mut i: usize = 0;
    while i < cameras.len()
        invariant
            i <= cameras.len(),
            queue@.len() == old(queue)@.len() + i,
            queue@.subrange(0, old(queue)@.len() as int) == old(queue)@,
            forall|k: int| 0 <= k < i ==> writes_uniform(#[trigger] queue@[old(queue)@.len() + k], cameras@[k]),
        decreases cameras.len() - i,
    {
        let ghost before = queue@;
        cameras[i].queue_uniform(queue);
        assert(queue@.subrange(0, old(queue)@.len() as int) =~= before.subrange(0, old(queue)@.len() as int));
        assert forall|k: int| 0 <= k < i + 1 implies writes_uniform(#[trigger] queue@[old(queue)@.len() + k], cameras@[k]) by {
            if k < i {
                assert(queue@[old(queue)@.len() + k] == queue@.subrange(0, before.len() as int)[old(queue)@.len() + k]);
            }
        }
        i = i + 1;
    }
}

/// Render-intent routine: queues one draw per visible renderable.
pub fn render_system(renderables: &Vec<Renderable>, queue: &mut CommandQueue<RenderCommand>)
    ensures
        final(queue)@ == old(queue)@ + render_intents(renderables@),
{
    let mut i: usize = 0;
    while i < renderables.len()
        invariant
            i <= renderables.len(),
            queue@ == old(queue)@ + render_intents(renderables@.subrange(0, i as int)),
        decreases renderables.len() - i,
    {
        let r = &renderables[i];
        proof {
            let s = renderables@.subrange(0, i + 1);
            assert(s.drop_last() == renderables@.subrange(0, i as int));
            assert(s.last() == *r);
        }
        if r.visible {
            let cmd = make_draw_command(&r.mesh, &r.material);
            queue.push(cmd);
        }
        i = i + 1;
    }
    assert(renderables@.subrange(0, renderables.len() as int) == renderables@);
}

} // verus!
