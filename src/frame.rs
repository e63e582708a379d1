//! One frame's submission: drain the queues, sort the draws, plan the
//! replay, and decide what becomes of the frame from how the surface
//! texture was acquired.

use crate::command::{CommandQueue, CreateBufferCommand, RenderCommand, WriteBufferCommand};
use crate::submit::{record_draws, replay, sort_by_pipeline, stable_sorted_by_pipeline, GpuOp};
use vstd::prelude::*;

verus! {

/// How acquiring this frame's target went.
#[derive(Clone, Copy, Debug, PartialEq, Eq, Structural)]
pub enum AcquireStatus {
    Ready,
    /// The surface no longer matches its window; the frame is skipped.
    Outdated,
    /// The surface was lost; the frame is skipped.
    Lost,
    /// Any other failure, which the pipeline does not recover from.
    Failed,
}

/// What the device does for one frame: create buffers, write buffers,
/// then issue `ops` on one render pass.  `draws` are the drained draws in
/// the order that `ops` replays them.
pub struct FramePlan {
    pub creates: Vec<CreateBufferCommand>,
    pub writes: Vec<WriteBufferCommand>,
    pub draws: Vec<RenderCommand>,
    pub ops: Vec<GpuOp>,
}

pub enum FrameOutcome {
    Present(FramePlan),
    /// The drained commands were discarded; the next frame goes on.
    Skipped,
    /// The process ends.
    Fatal,
}

/// `plan` carries the drained creates and writes as they were queued, the
/// drained draws stably sorted by pipeline, and their replay.
pub open spec fn plans_frame(
    plan: FramePlan,
    creates: Seq<CreateBufferCommand>,
    writes: Seq<WriteBufferCommand>,
    draws: Seq<RenderCommand>,
) -> bool {
    &&& plan.creates@ == creates
    &&& plan.writes@ == writes
    &&& stable_sorted_by_pipeline(plan.draws@, draws)
    &&& plan.ops@ == replay(plan.draws@)
}

/// Drains all three queues, whatever the status, and plans the frame when
/// the target was acquired.
pub fn submit_frame(
    status: AcquireStatus,
    creates: &mut CommandQueue<CreateBufferCommand>,
    writes: &mut CommandQueue<WriteBufferCommand>,
    draws: &mut CommandQueue<RenderCommand>,
) -> (r: FrameOutcome)
    ensures
        final(creates)@.len() == 0,
        final(writes)@.len() == 0,
        final(draws)@.len() == 0,
        match r {
            FrameOutcome::Present(plan) => status is Ready && plans_frame(plan, old(creates)@, old(writes)@, old(draws)@),
            FrameOutcome::Skipped => status is Outdated || status is Lost,
            FrameOutcome::Fatal => status is Failed,
        },
{
    let created = creates.drain();
    let written = writes.drain();
    let drawn = draws.drain();
    match status {
        AcquireStatus::Ready => {
            let sorted = sort_by_pipeline(drawn);
            let ops = record_draws(&sorted);
            FrameOutcome::Present(FramePlan { creates: created, writes: written, draws: sorted, ops })
        },
        AcquireStatus::Outdated | AcquireStatus::Lost => FrameOutcome::Skipped,
        AcquireStatus::Failed => FrameOutcome::Fatal,
    }
}

} // verus!
