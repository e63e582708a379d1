//! Deferred commands and the queues that carry them from producer routines
//! to the frame submitter.

use crate::resource::{BindGroupRef, BufferRef, PipelineRef};
use std::sync::Arc;
use vstd::prelude::*;

verus! {

/// A buffer to be created from `data` with the given usage bits.
pub struct CreateBufferCommand {
    pub data: Vec<u8>,
    pub usage: u32,
}

/// A partial update of an existing buffer: `data` goes at byte `offset`.
pub struct WriteBufferCommand {
    pub buffer: BufferRef,
    pub offset: u64,
    pub data: Vec<u8>,
}

/// One indexed draw: the pipeline, the bind groups in slot order, the
/// vertex and index buffers and how many indices to draw.
pub struct RenderCommand {
    pub pipeline: PipelineRef,
    pub bind_groups: Arc<Vec<BindGroupRef>>,
    pub vertex_buffer: BufferRef,
    pub index_buffer: BufferRef,
    pub index_count: u32,
}

/// An unbounded queue of commands.  Pushes are kept in order; `drain`
/// claims everything queued so far and leaves the queue empty.
pub struct CommandQueue<C> {
    items: Vec<C>,
}

impl<C> View for CommandQueue<C> {
    type V = Seq<C>;

    closed spec fn view(&self) -> Seq<C> {
        self.items@
    }
}

/// One `drain` that found `before`, handed out `out` and left `after`.
pub open spec fn drain_step<C>(before: Seq<C>, after: Seq<C>, out: Seq<C>) -> bool {
    out == before && after == Seq::<C>::empty()
}

impl<C> CommandQueue<C> {
    pub fn new() -> (r: Self)
        ensures
            r@ == Seq::<C>::empty(),
    {
        CommandQueue { items: Vec::new() }
    }

    pub fn len(&self) -> (r: usize)
        ensures
            r == self@.len(),
    {
        self.items.len()
    }

    /// Appends `cmd`; never blocks and never fails.
    pub fn push(&mut self, cmd: C)
        ensures
            final(self)@ == old(self)@.push(cmd),
    {
        self.items.push(cmd);
    }

    /// Claims every queued command, in push order, and empties the queue.
    pub fn drain(&mut self) -> (r: Vec<C>)
        ensures
            drain_step(old(self)@, final(self)@, r@),
    {
        let mut out: Vec<C> = Vec::new();
        std::mem::swap(&mut out, &mut self.items);
        out
    }
}

/// Draining a queue twice with no push in between yields nothing the
/// second time.
pub proof fn lemma_second_drain_is_empty<C>(q0: Seq<C>, q1: Seq<C>, q2: Seq<C>, out1: Seq<C>, out2: Seq<C>)
    requires
        drain_step(q0, q1, out1),
        drain_step(q1, q2, out2),
    ensures
        out1 == q0,
        out2.len() == 0,
{
}

} // verus!
