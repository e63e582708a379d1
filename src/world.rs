//! The scene, its asset registries and its command queues, and the frame
//! protocol that runs over them.

use crate::camera::{writes_uniform, Camera};
use crate::command::{CommandQueue, CreateBufferCommand, RenderCommand, WriteBufferCommand};
use crate::submit::{
    lemma_sort_then_replay_binds_each_pipeline_once, pipeline_bind_count, pipelines_in, replay,
    stable_sorted_by_pipeline,
};
use crate::frame::{plans_frame, submit_frame, AcquireStatus, FrameOutcome};
use crate::registry::AssetRegistry;
use crate::resource::{Material, Mesh, Shader};
use crate::scene::{Renderable, SpawnRenderable};
use crate::schedule::{
    camera_main_uniform_system, camera_writes_queued, render_intents, render_system, spawn_gltf_system, spawned,
};
use vstd::prelude::*;

verus! {

pub struct World {
    pub meshes: AssetRegistry<Mesh>,
    pub materials: AssetRegistry<Material>,
    pub shaders: AssetRegistry<Shader>,
    pub cameras: Vec<Camera>,
    pub renderables: Vec<Renderable>,
    /// Spawn intents waiting for the startup phase.
    pub spawn_events: Vec<SpawnRenderable>,
    pub create_queue: CommandQueue<CreateBufferCommand>,
    pub write_queue: CommandQueue<WriteBufferCommand>,
    pub render_queue: CommandQueue<RenderCommand>,
}

impl World {
    pub open spec fn wf(&self) -> bool {
        &&& self.meshes.wf()
        &&& self.materials.wf()
        &&& self.shaders.wf()
    }

    pub fn new() -> (r: World)
        ensures
            r.wf(),
            r.meshes.assets().is_empty(),
            r.materials.assets().is_empty(),
            r.shaders.assets().is_empty(),
            r.cameras@.len() == 0,
            r.renderables@.len() == 0,
            r.spawn_events@.len() == 0,
            r.create_queue@.len() == 0,
            r.write_queue@.len() == 0,
            r.render_queue@.len() == 0,
    {
        World {
            meshes: AssetRegistry::new(),
            materials: AssetRegistry::new(),
            shaders: AssetRegistry::new(),
            cameras: Vec::new(),
            renderables: Vec::new(),
            spawn_events: Vec::new(),
            create_queue: CommandQueue::new(),
            write_queue: CommandQueue::new(),
            render_queue: CommandQueue::new(),
        }
    }

    /// Startup phase: consumes the pending spawn intents and adds the
    /// renderables they create.
    pub fn run_startup(&mut self)
        ensures
            final(self).renderables@ == old(self).renderables@ + spawned(
                old(self).meshes.assets(),
                old(self).materials.assets(),
                old(self).spawn_events@,
            ),
            final(self).spawn_events@.len() == 0,
            final(self).meshes == old(self).meshes,
            final(self).materials == old(self).materials,
            final(self).shaders == old(self).shaders,
            final(self).cameras == old(self).cameras,
            final(self).create_queue == old(self).create_queue,
            final(self).write_queue == old(self).write_queue,
            final(self).render_queue == old(self).render_queue,
    {
        spawn_gltf_system(&self.meshes, &self.materials, &self.spawn_events, &mut self.renderables);
        self.spawn_events.clear();
    }

    /// Render phase: the camera-sync routine, then the render-intent
    /// routine.  Only the queues change.
    pub fn run_render_phase(&mut self)
        ensures
            camera_writes_queued(old(self).write_queue@, final(self).write_queue@, old(self).cameras@),
            final(self).render_queue@ == old(self).render_queue@ + render_intents(old(self).renderables@),
            final(self).create_queue == old(self).create_queue,
            final(self).meshes == old(self).meshes,
            final(self).materials == old(self).materials,
            final(self).shaders == old(self).shaders,
            final(self).cameras == old(self).cameras,
            final(self).renderables == old(self).renderables,
            final(self).spawn_events == old(self).spawn_events,
    {
        camera_main_uniform_system(&self.cameras, &mut self.write_queue);
        render_system(&self.renderables, &mut self.render_queue);
    }

    /// Frame submission: drains every queue and plans the frame when its
    /// target was acquired.
    pub fn submit(&mut self, status: AcquireStatus) -> (r: FrameOutcome)
        ensures
            final(self).create_queue@.len() == 0,
            final(self).write_queue@.len() == 0,
            final(self).render_queue@.len() == 0,
            match r {
                FrameOutcome::Present(plan) => status is Ready && plans_frame(
                    plan,
                    old(self).create_queue@,
                    old(self).write_queue@,
                    old(self).render_queue@,
                ),
                FrameOutcome::Skipped => status is Outdated || status is Lost,
                FrameOutcome::Fatal => status is Failed,
            },
            final(self).meshes == old(self).meshes,
            final(self).materials == old(self).materials,
            final(self).shaders == old(self).shaders,
            final(self).cameras == old(self).cameras,
            final(self).renderables == old(self).renderables,
            final(self).spawn_events == old(self).spawn_events,
    {
        submit_frame(status, &mut self.create_queue, &mut self.write_queue, &mut self.render_queue)
    }

    /// One frame: the render phase, then submission.  The writes of the
    /// frame carry every camera's matrix as it stands when the frame
    /// starts, and its draws are those of the visible renderables.
    pub fn render(&mut self, status: AcquireStatus) -> (r: FrameOutcome)
        ensures
            final(self).create_queue@.len() == 0,
            final(self).write_queue@.len() == 0,
            final(self).render_queue@.len() == 0,
            match r {
                FrameOutcome::Present(plan) => {
                    &&& status is Ready
                    &&& plan.creates@ == old(self).create_queue@
                    &&& camera_writes_queued(old(self).write_queue@, plan.writes@, old(self).cameras@)
                    &&& stable_sorted_by_pipeline(
                        plan.draws@,
                        old(self).render_queue@ + render_intents(old(self).renderables@),
                    )
                    &&& plan.ops@ == replay(plan.draws@)
                    &&& pipeline_bind_count(plan.ops@) == pipelines_in(
                        old(self).render_queue@ + render_intents(old(self).renderables@),
                    ).len()
                },
                FrameOutcome::Skipped => status is Outdated || status is Lost,
                FrameOutcome::Fatal => status is Failed,
            },
            final(self).meshes == old(self).meshes,
            final(self).materials == old(self).materials,
            final(self).shaders == old(self).shaders,
            final(self).cameras == old(self).cameras,
            final(self).renderables == old(self).renderables,
            final(self).spawn_events == old(self).spawn_events,
    {
        self.run_render_phase();
        let r = self.submit(status);
        proof {
            if let FrameOutcome::Present(plan) = &r {
                lemma_sort_then_replay_binds_each_pipeline_once(
                    old(self).render_queue@ + render_intents(old(self).renderables@),
                    plan.draws@,
                );
            }
        }
        r
    }
}

/// A camera matrix changed before a frame's render phase is the matrix that
/// the frame writes to that camera's buffer: there is no one-frame lag.
pub proof fn lemma_camera_change_written_same_frame(
    before: Camera,
    after: Camera,
    view_proj: Seq<u8>,
    cameras: Seq<Camera>,
    i: int,
    queued: Seq<WriteBufferCommand>,
    writes: Seq<WriteBufferCommand>,
)
    requires
        after.buffer() == before.buffer(),
        after.view_proj() == view_proj,
        0 <= i < cameras.len(),
        cameras[i] == after,
        camera_writes_queued(queued, writes, cameras),
    ensures
        writes[queued.len() + i].buffer == before.buffer(),
        writes[queued.len() + i].offset == 0,
        writes[queued.len() + i].data@ == view_proj,
{
    assert(writes_uniform(writes[queued.len() + i], cameras[i]));
}

} // verus!
