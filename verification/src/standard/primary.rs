//! The builder that owns the raw stream.

use vstd::prelude::*;
use core::ops::Range;
use crate::barrier::{BarrierRequest, PipelineBarrierBuilder};
use crate::recording::Recording;
use crate::resource::{BufferSlice, Image, Layout, ResourceRef};
use crate::standard::update_buffer::{
    update_buffer_error, StdUpdateBufferBuilder, UpdateBufferError,
};
use crate::standard::{StdCommandBuffer, StdCommandBufferBuilder};
use crate::state::{ResourceState, ResourceStateTable};
use crate::sync::{AccessFlagBits, PipelineStages};
use crate::sys::{
    Command, CommandPool, Flags, Kind, StreamError, RawOperation, UnsafeCommandBuffer,
    UnsafeCommandBufferBuilder,
};

verus! {

/// Records a primary command buffer. It owns the raw stream, the batch of
/// pending barrier requests and the table of resource states, and defers no
/// operation.
pub struct StdPrimaryCommandBufferBuilder {
    inner: UnsafeCommandBufferBuilder,
    staging_barrier: PipelineBarrierBuilder,
    states: ResourceStateTable,
}

/// A primary command buffer that is ready to be submitted.
pub struct StdPrimaryCommandBuffer {
    inner: UnsafeCommandBuffer,
}

impl StdPrimaryCommandBufferBuilder {
    /// Takes a command buffer from `pool` and starts recording on it, at the
    /// primary level and for simultaneous use. Fails, and leaves the pool as it
    /// was, if the device is lost or the pool has no command buffer left.
    pub fn new(pool: &mut CommandPool) -> (r: Result<StdPrimaryCommandBufferBuilder, StreamError>)
        ensures
            match r {
                Ok(builder) => {
                    &&& old(pool).hands_out(*final(pool))
                    &&& builder.recording() == Recording::start()
                    &&& builder.capacity() == old(pool).capacity
                    &&& builder.spec_kind() == Kind::Primary
                    &&& builder.spec_flags() == Flags::SimultaneousUse
                },
                Err(error) => old(pool).refusal() == Some(error) && *final(pool) == *old(pool),
            },
    {
        match UnsafeCommandBufferBuilder::new(pool, Kind::Primary, Flags::SimultaneousUse) {
            Ok(inner) => Ok(
                StdPrimaryCommandBufferBuilder {
                    inner,
                    staging_barrier: PipelineBarrierBuilder::new(),
                    states: ResourceStateTable::new(),
                },
            ),
            Err(error) => Err(error),
        }
    }

    /// Adds the update of `buffer` with `data` at the end of the builder, as
    /// `StdUpdateBufferBuilder::new` does.
    pub fn update_buffer(self, buffer: BufferSlice, data: Vec<u8>) -> (r: Result<
        StdUpdateBufferBuilder<StdPrimaryCommandBufferBuilder>,
        (StdPrimaryCommandBufferBuilder, UpdateBufferError),
    >)
        ensures
            match r {
                Ok(builder) => {
                    &&& update_buffer_error(buffer, data@.len()) is None
                    &&& builder.recording() == self.recording().update_buffer(buffer, data@)
                    &&& builder.capacity() == self.capacity()
                    &&& builder.spec_buffer() == buffer
                    &&& builder.spec_data() == data@
                    &&& !builder.spec_is_flushed()
                },
                Err((builder, error)) => {
                    &&& update_buffer_error(buffer, data@.len()) == Some(error)
                    &&& builder == self
                },
            },
    {
        StdUpdateBufferBuilder::new(self, buffer, data)
    }

    /// The level of the command buffer that is recorded.
    pub closed spec fn spec_kind(&self) -> Kind {
        self.inner.spec_kind()
    }

    /// The submission mode of the command buffer that is recorded.
    pub closed spec fn spec_flags(&self) -> Flags {
        self.inner.spec_flags()
    }

    /// The raw stream as recorded so far. The pending batch is not part of it.
    pub fn raw(&self) -> (r: &UnsafeCommandBufferBuilder)
        ensures
            r@ == self.recording().stream,
            r.spec_capacity() == self.capacity(),
            r.spec_kind() == self.spec_kind(),
            r.spec_flags() == self.spec_flags(),
    {
        &self.inner
    }

    /// The batch of barrier requests that wait to be emitted.
    pub fn staging_barrier(&self) -> (r: &PipelineBarrierBuilder)
        ensures
            r@ == self.recording().pending,
    {
        &self.staging_barrier
    }

    /// The table of resource states.
    pub fn resource_states(&self) -> (r: &ResourceStateTable)
        ensures
            r@ == self.recording().states,
    {
        &self.states
    }

    /// Emits the pending batch, if it holds anything.
    fn flush(&mut self)
        ensures
            final(self).recording() == old(self).recording().settled(),
            final(self).capacity() == old(self).capacity(),
            final(self).spec_kind() == old(self).spec_kind(),
            final(self).spec_flags() == old(self).spec_flags(),
    {
        if !self.staging_barrier.is_empty() {
            let batch = self.staging_barrier.take();
            self.inner.pipeline_barrier(batch);
        }
        assert(self.recording() =~= old(self).recording().settled());
    }

    /// Lets `request` reach the pending batch.
    fn request(&mut self, request: BarrierRequest)
        ensures
            final(self).recording() == old(self).recording().request(request),
            final(self).capacity() == old(self).capacity(),
            final(self).spec_kind() == old(self).spec_kind(),
            final(self).spec_flags() == old(self).spec_flags(),
    {
        if !self.staging_barrier.merge(request) {
            self.flush();
            let joined = self.staging_barrier.merge(request);
            assert(joined);
        }
        assert(self.recording() =~= old(self).recording().request(request));
    }

    /// Asks for the transition of `resource` to the given use and notes that
    /// use as its state.
    fn transition(
        &mut self,
        resource: ResourceRef,
        dst_stages: PipelineStages,
        dst_access: AccessFlagBits,
        by_region: bool,
        new_layout: Option<Layout>,
    )
        ensures
            final(self).recording() == old(self).recording().transition(
                resource,
                dst_stages,
                dst_access,
                by_region,
                new_layout,
            ),
            final(self).capacity() == old(self).capacity(),
            final(self).spec_kind() == old(self).spec_kind(),
            final(self).spec_flags() == old(self).spec_flags(),
    {
        let request = BarrierRequest {
            resource,
            src_stages: self.states.source_stages(resource),
            src_access: self.states.source_access(resource),
            dst_stages,
            dst_access,
            by_region,
            queue_transfer_from: None,
            new_layout,
        };
        self.request(request);
        self.states.record(
            resource,
            ResourceState { stages: dst_stages, access: dst_access, layout: new_layout },
        );
    }
}

impl StdCommandBufferBuilder for StdPrimaryCommandBufferBuilder {
    type BuildOutput = StdPrimaryCommandBuffer;

    closed spec fn recording(&self) -> Recording {
        Recording {
            stream: self.inner@,
            pending: self.staging_barrier@,
            deferred: Seq::empty(),
            states: self.states@,
        }
    }

    closed spec fn capacity(&self) -> usize {
        self.inner.spec_capacity()
    }

    fn add_command(&mut self, operation: RawOperation)
        ensures
            final(self).spec_kind() == old(self).spec_kind(),
            final(self).spec_flags() == old(self).spec_flags(),
    {
        self.flush();
        self.inner.append(operation);
        assert(self.recording() =~= old(self).recording().add_command(operation@));
    }

    fn buffer_memory_barrier(
        &mut self,
        buffer: BufferSlice,
        src_stages: PipelineStages,
        src_access: AccessFlagBits,
        dst_stages: PipelineStages,
        dst_access: AccessFlagBits,
        by_region: bool,
        queue_transfer_from: Option<u32>,
    )
        ensures
            final(self).spec_kind() == old(self).spec_kind(),
            final(self).spec_flags() == old(self).spec_flags(),
    {
        let resource = buffer.resource();
        self.request(
            BarrierRequest {
                resource,
                src_stages,
                src_access,
                dst_stages,
                dst_access,
                by_region,
                queue_transfer_from,
                new_layout: None,
            },
        );
        self.states.record(
            resource,
            ResourceState { stages: dst_stages, access: dst_access, layout: None },
        );
    }

    fn transition_buffer_state(
        &mut self,
        buffer: BufferSlice,
        dst_stages: PipelineStages,
        dst_access: AccessFlagBits,
        by_region: bool,
    )
        ensures
            final(self).spec_kind() == old(self).spec_kind(),
            final(self).spec_flags() == old(self).spec_flags(),
    {
        self.transition(buffer.resource(), dst_stages, dst_access, by_region, None);
    }

    fn transition_image_state(
        &mut self,
        image: &Image,
        mipmaps: Range<u32>,
        layers: Range<u32>,
        dst_stages: PipelineStages,
        dst_access: AccessFlagBits,
        by_region: bool,
        new_layout: Layout,
    )
        ensures
            final(self).spec_kind() == old(self).spec_kind(),
            final(self).spec_flags() == old(self).spec_flags(),
    {
        let resource = image.subresource(mipmaps.start, mipmaps.end, layers.start, layers.end);
        self.transition(resource, dst_stages, dst_access, by_region, Some(new_layout));
    }

    fn current_image_layout(&self, image: &Image, mipmaps: Range<u32>, layers: Range<u32>) -> (r:
        Option<Layout>) {
        self.states.known_layout(image, mipmaps, layers)
    }

    fn is_current_graphics_pipeline(&self) -> (r: bool) {
        false
    }

    fn build(self) -> (r: Result<StdPrimaryCommandBuffer, StreamError>)
        ensures
            r matches Ok(buffer) ==> buffer.spec_kind() == self.spec_kind() && buffer.spec_flags()
                == self.spec_flags(),
    {
        let mut builder = self;
        builder.flush();
        match builder.inner.build() {
            Ok(inner) => Ok(StdPrimaryCommandBuffer { inner }),
            Err(error) => Err(error),
        }
    }
}

impl StdPrimaryCommandBuffer {
    /// The level of the command buffer.
    pub closed spec fn spec_kind(&self) -> Kind {
        self.inner.spec_kind()
    }

    /// The submission mode of the command buffer.
    pub closed spec fn spec_flags(&self) -> Flags {
        self.inner.spec_flags()
    }

    /// The raw command buffer.
    pub fn raw(&self) -> (r: &UnsafeCommandBuffer)
        ensures
            r@ == self.commands(),
            r.spec_kind() == self.spec_kind(),
            r.spec_flags() == self.spec_flags(),
    {
        &self.inner
    }
}

impl StdCommandBuffer for StdPrimaryCommandBuffer {
    closed spec fn commands(&self) -> Seq<Command> {
        self.inner@
    }

    /// Recording settles every transition inside the stream, so nothing is left
    /// to carry out ahead of it.
    open spec fn required_transitions(&self) -> Seq<BarrierRequest> {
        Seq::empty()
    }

    fn build_required_transitions(&self) -> (r: Option<PipelineBarrierBuilder>) {
        None
    }
}

} // verus!
