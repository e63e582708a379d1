//! The camera as the frame pipeline sees it: the uniform buffer that holds
//! its view-projection matrix, and the bytes that matrix currently encodes.

use crate::command::{CommandQueue, WriteBufferCommand};
use crate::resource::BufferRef;
use vstd::prelude::*;

verus! {

pub struct Camera {
    buffer: BufferRef,
    uniform: Vec<u8>,
}

impl Camera {
    /// The uniform buffer that holds this camera's matrix.
    pub closed spec fn buffer(&self) -> BufferRef {
        self.buffer
    }

    /// The bytes of the current view-projection matrix.
    pub closed spec fn view_proj(&self) -> Seq<u8> {
        self.uniform@
    }

    pub fn new(buffer: BufferRef, view_proj: Vec<u8>) -> (r: Camera)
        ensures
            r.buffer() == buffer,
            r.view_proj() == view_proj@,
    {
        Camera { buffer, uniform: view_proj }
    }

    pub fn buffer_ref(&self) -> (r: BufferRef)
        ensures
            r == self.buffer(),
    {
        self.buffer
    }

    pub fn uniform(&self) -> (r: &Vec<u8>)
        ensures
            r@ == self.view_proj(),
    {
        &self.uniform
    }

    /// Replaces the matrix bytes after a camera field changed.
    pub fn update_uniform(&mut self, view_proj: Vec<u8>)
        ensures
            final(self).buffer() == old(self).buffer(),
            final(self).view_proj() == view_proj@,
    {
        self.uniform = view_proj;
    }

    /// Queues a write of the current matrix to the start of the camera's
    /// uniform buffer.
    pub fn queue_uniform(&self, queue: &mut CommandQueue<WriteBufferCommand>)
        ensures
            final(queue)@.len() == old(queue)@.len() + 1,
            final(queue)@.subrange(0, old(queue)@.len() as int) == old(queue)@,
            writes_uniform(final(queue)@.last(), *self),
    {
        let data = self.uniform.clone();
        assert(data@ =~= self.uniform@);
        queue.push(WriteBufferCommand { buffer: self.buffer, offset: 0, data });
        assert(final(queue)@.subrange(0, old(queue)@.len() as int) =~= old(queue)@);
    }
}

/// `cmd` writes the camera's current matrix at offset 0 of its buffer.
pub open spec fn writes_uniform(cmd: WriteBufferCommand, cam: Camera) -> bool {
    &&& cmd.buffer == cam.buffer()
    &&& cmd.offset == 0
    &&& cmd.data@ == cam.view_proj()
}

} // verus!
