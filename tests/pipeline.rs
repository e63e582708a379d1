use frame_pipeline::camera::Camera;
use frame_pipeline::command::{CommandQueue, CreateBufferCommand, RenderCommand, WriteBufferCommand};
use frame_pipeline::frame::{AcquireStatus, FrameOutcome, FramePlan};
use frame_pipeline::registry::{AssetRegistry, Handle};
use frame_pipeline::resource::{primitive_indices, BindGroupRef, BufferRef, Material, Mesh, PipelineRef, Shader};
use frame_pipeline::scene::{Model, Renderable, SpawnRenderable};
use frame_pipeline::submit::{record_draws, sort_by_pipeline, GpuOp};
use frame_pipeline::world::World;
use std::sync::Arc;

fn draw(pipeline: u64, tag: u32) -> RenderCommand {
    RenderCommand {
        pipeline: PipelineRef(pipeline),
        bind_groups: Arc::new(vec![BindGroupRef(100 + pipeline)]),
        vertex_buffer: BufferRef(tag as u64),
        index_buffer: BufferRef(1000 + tag as u64),
        index_count: tag,
    }
}

fn tags(cmds: &[RenderCommand]) -> Vec<u32> {
    cmds.iter().map(|c| c.index_count).collect()
}

fn pipeline_binds(ops: &[GpuOp]) -> usize {
    ops.iter().filter(|o| matches!(o, GpuOp::SetPipeline(_))).count()
}

fn draws(ops: &[GpuOp]) -> usize {
    ops.iter().filter(|o| matches!(o, GpuOp::DrawIndexed(_))).count()
}

fn present(outcome: FrameOutcome) -> FramePlan {
    match outcome {
        FrameOutcome::Present(plan) => plan,
        FrameOutcome::Skipped => panic!("frame skipped"),
        FrameOutcome::Fatal => panic!("frame fatal"),
    }
}

/// A world with one camera and the given (mesh, pipeline) renderables spawned.
fn world_with(items: &[(Mesh, u64, u64)]) -> World {
    let mut world = World::new();
    world.cameras.push(Camera::new(BufferRef(7), vec![1, 2, 3, 4]));
    for (mesh, pipeline, group) in items {
        let m = world.meshes.insert(Arc::new(*mesh));
        let mat = world.materials.insert(Material::new_arc(PipelineRef(*pipeline), vec![BindGroupRef(*group)]));
        world.spawn_events.push(SpawnRenderable { mesh_handle: m, material_handle: mat });
    }
    world.run_startup();
    world
}

#[test]
fn insert_handles_strictly_increase() {
    let mut reg: AssetRegistry<u32> = AssetRegistry::new();
    let mut handles = Vec::new();
    for i in 0..6u32 {
        handles.push(reg.insert(Arc::new(i)));
    }
    for w in handles.windows(2) {
        assert!(w[0].0 < w[1].0);
    }
    assert_eq!(handles[0], Handle(0));
    assert_eq!(handles[5], Handle(5));
    assert_eq!(*reg.get(handles[3]).unwrap(), 3);
}

#[test]
fn insert_after_remove_gets_fresh_handle() {
    let mut reg: AssetRegistry<u32> = AssetRegistry::new();
    let a = reg.insert(Arc::new(1));
    assert_eq!(*reg.remove(a).unwrap(), 1);
    let b = reg.insert(Arc::new(2));
    assert_ne!(a, b);
    assert!(a.0 < b.0);
    assert!(reg.get(a).is_none());
    assert_eq!(*reg.get(b).unwrap(), 2);
}

#[test]
fn removed_handle_stays_absent() {
    let mut reg: AssetRegistry<u32> = AssetRegistry::new();
    let a = reg.insert(Arc::new(10));
    let b = reg.insert(Arc::new(20));
    assert_eq!(*reg.remove(a).unwrap(), 10);
    for _ in 0..3 {
        assert!(reg.get(a).is_none());
    }
    assert!(reg.remove(a).is_none());
    assert!(reg.get(a).is_none());
    assert_eq!(*reg.get(b).unwrap(), 20);
}

#[test]
fn unknown_handle_is_absent() {
    let mut reg: AssetRegistry<u32> = AssetRegistry::new();
    assert!(reg.get(Handle(3)).is_none());
    assert!(reg.remove(Handle(3)).is_none());
}

#[test]
fn second_drain_is_empty() {
    let mut q: CommandQueue<u32> = CommandQueue::new();
    q.push(4);
    q.push(5);
    q.push(6);
    assert_eq!(q.len(), 3);
    assert_eq!(q.drain(), vec![4, 5, 6]);
    assert_eq!(q.len(), 0);
    assert!(q.drain().is_empty());
}

#[test]
fn stable_sort_keeps_order_within_pipeline() {
    // A(p1), B(p2), C(p1)
    let sorted = sort_by_pipeline(vec![draw(1, 1), draw(2, 2), draw(1, 3)]);
    assert_eq!(tags(&sorted), vec![1, 3, 2]);
}

#[test]
fn stable_sort_groups_ascending() {
    let input = vec![draw(9, 1), draw(3, 2), draw(9, 3), draw(5, 4), draw(3, 5), draw(5, 6)];
    let sorted = sort_by_pipeline(input);
    assert_eq!(tags(&sorted), vec![2, 5, 4, 6, 1, 3]);
    assert!(sort_by_pipeline(Vec::new()).is_empty());
}

#[test]
fn sorted_replay_binds_each_pipeline_once() {
    let input = vec![draw(2, 1), draw(1, 2), draw(3, 3), draw(2, 4), draw(1, 5), draw(3, 6)];
    let unsorted_ops = record_draws(&input);
    assert_eq!(pipeline_binds(&unsorted_ops), 6);
    let sorted = sort_by_pipeline(input);
    let ops = record_draws(&sorted);
    assert_eq!(pipeline_binds(&ops), 3);
    assert_eq!(draws(&ops), 6);
}

#[test]
fn replay_of_one_pipeline_binds_once() {
    let ops = record_draws(&vec![draw(4, 1), draw(4, 2), draw(4, 3), draw(4, 4)]);
    assert_eq!(pipeline_binds(&ops), 1);
    assert_eq!(draws(&ops), 4);
    assert!(record_draws(&Vec::new()).is_empty());
}

#[test]
fn replay_binds_every_group_in_slot_order() {
    let cmd = RenderCommand {
        pipeline: PipelineRef(1),
        bind_groups: Arc::new(vec![BindGroupRef(30), BindGroupRef(31)]),
        vertex_buffer: BufferRef(2),
        index_buffer: BufferRef(3),
        index_count: 12,
    };
    let ops = record_draws(&vec![cmd]);
    assert_eq!(
        ops,
        vec![
            GpuOp::SetPipeline(PipelineRef(1)),
            GpuOp::SetBindGroup(0, BindGroupRef(30)),
            GpuOp::SetBindGroup(1, BindGroupRef(31)),
            GpuOp::SetVertexBuffer(BufferRef(2)),
            GpuOp::SetIndexBuffer(BufferRef(3)),
            GpuOp::DrawIndexed(12),
        ]
    );
}

#[test]
fn one_renderable_frame() {
    let mesh = Mesh { vertex_buffer: BufferRef(11), index_buffer: BufferRef(12), index_count: 3 };
    let mut world = world_with(&[(mesh, 5, 50)]);
    assert_eq!(world.renderables.len(), 1);
    let plan = present(world.render(AcquireStatus::Ready));
    assert_eq!(
        plan.ops,
        vec![
            GpuOp::SetPipeline(PipelineRef(5)),
            GpuOp::SetBindGroup(0, BindGroupRef(50)),
            GpuOp::SetVertexBuffer(BufferRef(11)),
            GpuOp::SetIndexBuffer(BufferRef(12)),
            GpuOp::DrawIndexed(3),
        ]
    );
}

#[test]
fn shared_pipeline_binds_once() {
    let m1 = Mesh { vertex_buffer: BufferRef(11), index_buffer: BufferRef(12), index_count: 3 };
    let m2 = Mesh { vertex_buffer: BufferRef(21), index_buffer: BufferRef(22), index_count: 6 };
    let mut world = world_with(&[(m1, 5, 50), (m2, 5, 60)]);
    let plan = present(world.render(AcquireStatus::Ready));
    assert_eq!(pipeline_binds(&plan.ops), 1);
    assert_eq!(draws(&plan.ops), 2);
    assert_eq!(
        plan.ops,
        vec![
            GpuOp::SetPipeline(PipelineRef(5)),
            GpuOp::SetBindGroup(0, BindGroupRef(50)),
            GpuOp::SetVertexBuffer(BufferRef(11)),
            GpuOp::SetIndexBuffer(BufferRef(12)),
            GpuOp::DrawIndexed(3),
            GpuOp::SetBindGroup(0, BindGroupRef(60)),
            GpuOp::SetVertexBuffer(BufferRef(21)),
            GpuOp::SetIndexBuffer(BufferRef(22)),
            GpuOp::DrawIndexed(6),
        ]
    );
}

#[test]
fn frame_draws_grouped_by_pipeline() {
    let m = |t: u64| Mesh { vertex_buffer: BufferRef(t), index_buffer: BufferRef(t + 1), index_count: t as u32 };
    let mut world = world_with(&[(m(10), 2, 1), (m(20), 1, 2), (m(30), 2, 3)]);
    let plan = present(world.render(AcquireStatus::Ready));
    assert_eq!(tags(&plan.draws), vec![20, 10, 30]);
    assert_eq!(pipeline_binds(&plan.ops), 2);
}

#[test]
fn camera_change_reaches_same_frame() {
    let mesh = Mesh { vertex_buffer: BufferRef(11), index_buffer: BufferRef(12), index_count: 3 };
    let mut world = world_with(&[(mesh, 5, 50)]);
    let first = present(world.render(AcquireStatus::Ready));
    assert_eq!(first.writes.len(), 1);
    assert_eq!(first.writes[0].buffer, BufferRef(7));
    assert_eq!(first.writes[0].offset, 0);
    assert_eq!(first.writes[0].data, vec![1, 2, 3, 4]);
    world.cameras[0].update_uniform(vec![9, 8, 7, 6]);
    let second = present(world.render(AcquireStatus::Ready));
    assert_eq!(second.writes.len(), 1);
    assert_eq!(second.writes[0].buffer, BufferRef(7));
    assert_eq!(second.writes[0].data, vec![9, 8, 7, 6]);
}

#[test]
fn outdated_frame_is_skipped_and_drained() {
    let mesh = Mesh { vertex_buffer: BufferRef(11), index_buffer: BufferRef(12), index_count: 3 };
    let mut world = world_with(&[(mesh, 5, 50)]);
    world.create_queue.push(CreateBufferCommand { data: vec![0; 4], usage: 1 });
    assert!(matches!(world.render(AcquireStatus::Outdated), FrameOutcome::Skipped));
    assert_eq!(world.create_queue.len(), 0);
    assert_eq!(world.write_queue.len(), 0);
    assert_eq!(world.render_queue.len(), 0);
    // The next frame proceeds normally, without the discarded commands.
    let plan = present(world.render(AcquireStatus::Ready));
    assert!(plan.creates.is_empty());
    assert_eq!(plan.writes.len(), 1);
    assert_eq!(draws(&plan.ops), 1);
}

#[test]
fn lost_frame_is_skipped() {
    let mut world = world_with(&[]);
    assert!(matches!(world.render(AcquireStatus::Lost), FrameOutcome::Skipped));
    assert_eq!(world.write_queue.len(), 0);
}

#[test]
fn failed_acquire_is_fatal() {
    let mut world = world_with(&[]);
    assert!(matches!(world.render(AcquireStatus::Failed), FrameOutcome::Fatal));
}

#[test]
fn frame_carries_queued_creates_and_writes() {
    let mut world = World::new();
    world.create_queue.push(CreateBufferCommand { data: vec![1, 2], usage: 8 });
    world.write_queue.push(WriteBufferCommand { buffer: BufferRef(3), offset: 16, data: vec![5] });
    let plan = present(world.render(AcquireStatus::Ready));
    assert_eq!(plan.creates.len(), 1);
    assert_eq!(plan.creates[0].data, vec![1, 2]);
    assert_eq!(plan.creates[0].usage, 8);
    assert_eq!(plan.writes.len(), 1);
    assert_eq!(plan.writes[0].offset, 16);
    assert!(plan.ops.is_empty());
}

#[test]
fn spawn_skips_unresolved_handles() {
    let mut world = World::new();
    let mesh = world.meshes.insert(Arc::new(Mesh { vertex_buffer: BufferRef(1), index_buffer: BufferRef(2), index_count: 3 }));
    let mat = world.materials.insert(Material::new_arc(PipelineRef(1), vec![BindGroupRef(1)]));
    world.spawn_events.push(SpawnRenderable { mesh_handle: mesh, material_handle: Handle(40) });
    world.spawn_events.push(SpawnRenderable { mesh_handle: Handle(41), material_handle: mat });
    world.spawn_events.push(SpawnRenderable { mesh_handle: mesh, material_handle: mat });
    world.run_startup();
    assert_eq!(world.renderables.len(), 1);
    assert!(world.renderables[0].visible);
    assert_eq!(world.renderables[0].mesh.index_count, 3);
    assert!(world.spawn_events.is_empty());
}

#[test]
fn removed_mesh_is_not_spawned() {
    let mut world = World::new();
    let mesh = world.meshes.insert(Arc::new(Mesh { vertex_buffer: BufferRef(1), index_buffer: BufferRef(2), index_count: 3 }));
    let mat = world.materials.insert(Material::new_arc(PipelineRef(1), vec![BindGroupRef(1)]));
    world.meshes.remove(mesh);
    world.spawn_events.push(SpawnRenderable { mesh_handle: mesh, material_handle: mat });
    world.run_startup();
    assert!(world.renderables.is_empty());
}

#[test]
fn hidden_renderable_is_not_drawn() {
    let mesh = Mesh { vertex_buffer: BufferRef(11), index_buffer: BufferRef(12), index_count: 3 };
    let mut world = world_with(&[(mesh, 5, 50), (mesh, 6, 60)]);
    world.renderables[0].visible = false;
    let plan = present(world.render(AcquireStatus::Ready));
    assert_eq!(draws(&plan.ops), 1);
    assert_eq!(plan.ops[0], GpuOp::SetPipeline(PipelineRef(6)));
}

#[test]
fn hidden_renderable_added_directly_is_not_drawn() {
    let mut world = World::new();
    let mesh = Arc::new(Mesh { vertex_buffer: BufferRef(1), index_buffer: BufferRef(2), index_count: 3 });
    world.renderables.push(Renderable { mesh, material: Material::new_arc(PipelineRef(1), vec![]), visible: false });
    let plan = present(world.render(AcquireStatus::Ready));
    assert!(plan.ops.is_empty());
}

#[test]
fn model_render_issues_full_draw() {
    let model = Model {
        mesh: Arc::new(Mesh { vertex_buffer: BufferRef(4), index_buffer: BufferRef(5), index_count: 9 }),
        material: Material::new_arc(PipelineRef(2), vec![BindGroupRef(8)]),
    };
    let mut ops = vec![GpuOp::DrawIndexed(1)];
    model.render(&mut ops);
    assert_eq!(
        ops,
        vec![
            GpuOp::DrawIndexed(1),
            GpuOp::SetPipeline(PipelineRef(2)),
            GpuOp::SetBindGroup(0, BindGroupRef(8)),
            GpuOp::SetVertexBuffer(BufferRef(4)),
            GpuOp::SetIndexBuffer(BufferRef(5)),
            GpuOp::DrawIndexed(9),
        ]
    );
}

#[test]
fn camera_queues_its_uniform() {
    let mut cam = Camera::new(BufferRef(3), vec![0; 64]);
    assert_eq!(cam.buffer_ref(), BufferRef(3));
    cam.update_uniform(vec![5; 64]);
    assert_eq!(cam.uniform(), &vec![5u8; 64]);
    let mut q = CommandQueue::new();
    cam.queue_uniform(&mut q);
    let out = q.drain();
    assert_eq!(out.len(), 1);
    assert_eq!(out[0].buffer, BufferRef(3));
    assert_eq!(out[0].offset, 0);
    assert_eq!(out[0].data, vec![5u8; 64]);
}

#[test]
fn indices_default_to_vertex_order() {
    assert_eq!(primitive_indices(None, 4), vec![0, 1, 2, 3]);
    assert!(primitive_indices(None, 0).is_empty());
    assert_eq!(primitive_indices(Some(vec![2, 0, 1]), 3), vec![2, 0, 1]);
}

#[test]
fn shader_keeps_binaries() {
    let s = Shader::new(vec![1, 2], vec![3]);
    assert_eq!(s.vertex_binary, vec![1, 2]);
    assert_eq!(s.pixel_binary, vec![3]);
}
