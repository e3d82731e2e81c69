//! A wrapper that adds one buffer update to the command buffer it wraps.

use vstd::prelude::*;
use core::ops::Range;
use crate::barrier::{BarrierRequest, PipelineBarrierBuilder};
use crate::recording::{
    deferred_update, lemma_defer_then_finish, lemma_settled_is_finished,
    lemma_transition_behind_deferred, lemma_transition_past_deferred, Recording,
};
use crate::resource::{Buffer, BufferSlice, Image, Layout, ResourceRef};
use crate::standard::{StdCommandBuffer, StdCommandBufferBuilder};
use crate::sync::{AccessFlagBits, PipelineStages};
use crate::sys::{Command, StreamError, RawOperation};

verus! {

/// The largest number of bytes that one buffer update can carry.
pub const MAX_UPDATE_SIZE: usize = 65536;

/// Why a buffer update was turned down.
#[derive(Clone, Copy, Debug, PartialEq, Eq, Structural)]
pub enum UpdateBufferError {
    /// The offset of the slice is not a multiple of four.
    OffsetNotAligned,
    /// The size of the slice is not a multiple of four.
    SizeNotAligned,
    /// The data is longer than `MAX_UPDATE_SIZE`.
    DataTooLarge,
    /// The buffer cannot be the destination of a transfer.
    MissingTransferDestUsage,
}

/// The first reason, if there is one, to turn down the update of `buffer` with
/// `data_len` bytes of data.
pub open spec fn update_buffer_error(buffer: BufferSlice, data_len: nat) -> Option<
    UpdateBufferError,
> {
    if buffer.offset % 4 != 0 {
        Some(UpdateBufferError::OffsetNotAligned)
    } else if buffer.size % 4 != 0 {
        Some(UpdateBufferError::SizeNotAligned)
    } else if data_len > MAX_UPDATE_SIZE {
        Some(UpdateBufferError::DataTooLarge)
    } else if !buffer.buffer.usage_transfer_dest {
        Some(UpdateBufferError::MissingTransferDestUsage)
    } else {
        None
    }
}

/// Wraps a builder and adds one buffer update behind what the builder holds.
///
/// The transition of the buffer is asked for when the wrapper is made, so that
/// it can share a pipeline barrier with its neighbours. The update itself is
/// held back until something has to follow it in the stream.
pub struct StdUpdateBufferBuilder<T> {
    inner: T,
    buffer: BufferSlice,
    data: Vec<u8>,
    flushed: bool,
}

/// A finished command buffer to which a buffer update was added.
pub struct StdUpdateBuffer<T> {
    inner: T,
    buffer: Buffer,
}

impl<T: StdCommandBufferBuilder> StdUpdateBufferBuilder<T> {
    /// Adds the update of `buffer` with `data` at the end of `inner`.
    ///
    /// An update that cannot be recorded is turned down: `inner` comes back as
    /// it was, with the reason. Otherwise the transition of `buffer` to a
    /// transfer write has been asked of `inner`, and the update is deferred.
    pub fn new(inner: T, buffer: BufferSlice, data: Vec<u8>) -> (r: Result<
        StdUpdateBufferBuilder<T>,
        (T, UpdateBufferError),
    >)
        ensures
            match r {
                Ok(builder) => {
                    &&& update_buffer_error(buffer, data@.len()) is None
                    &&& builder.recording() == inner.recording().update_buffer(buffer, data@)
                    &&& builder.capacity() == inner.capacity()
                    &&& builder.spec_buffer() == buffer
                    &&& builder.spec_data() == data@
                    &&& !builder.spec_is_flushed()
                },
                Err((builder, error)) => {
                    &&& update_buffer_error(buffer, data@.len()) == Some(error)
                    &&& builder == inner
                },
            },
    {
        if buffer.offset % 4 != 0 {
            return Err((inner, UpdateBufferError::OffsetNotAligned));
        }
        if buffer.size % 4 != 0 {
            return Err((inner, UpdateBufferError::SizeNotAligned));
        }
        if data.len() > MAX_UPDATE_SIZE {
            return Err((inner, UpdateBufferError::DataTooLarge));
        }
        if !buffer.buffer.usage_transfer_dest {
            return Err((inner, UpdateBufferError::MissingTransferDestUsage));
        }
        let mut inner = inner;
        inner.transition_buffer_state(
            buffer,
            PipelineStages::transfer(),
            AccessFlagBits::transfer_write(),
            true,
        );
        Ok(StdUpdateBufferBuilder { inner, buffer, data, flushed: false })
    }

    /// Adds the update of `buffer` with `data` at the end of the builder, as
    /// `StdUpdateBufferBuilder::new` does.
    pub fn update_buffer(self, buffer: BufferSlice, data: Vec<u8>) -> (r: Result<
        StdUpdateBufferBuilder<StdUpdateBufferBuilder<T>>,
        (StdUpdateBufferBuilder<T>, UpdateBufferError),
    >)
        ensures
            match r {
                Ok(builder) => {
                    &&& update_buffer_error(buffer, data@.len()) is None
                    &&& builder.recording() == self.recording().update_buffer(buffer, data@)
                    &&& builder.capacity() == self.capacity()
                    &&& builder.spec_buffer() == buffer
                    &&& builder.spec_data() == data@
                    &&& !builder.spec_is_flushed()
                },
                Err((builder, error)) => {
                    &&& update_buffer_error(buffer, data@.len()) == Some(error)
                    &&& builder == self
                },
            },
    {
        StdUpdateBufferBuilder::new(self, buffer, data)
    }

    /// Whether the update has been handed to the wrapped builder.
    pub closed spec fn spec_is_flushed(&self) -> bool {
        self.flushed
    }

    /// The slice that the update writes to.
    pub closed spec fn spec_buffer(&self) -> BufferSlice {
        self.buffer
    }

    /// The data that the update writes, as long as the update is held back.
    pub closed spec fn spec_data(&self) -> Seq<u8> {
        self.data@
    }

    #[verifier::when_used_as_spec(spec_is_flushed)]
    pub fn is_flushed(&self) -> (r: bool)
        ensures
            r == self.spec_is_flushed(),
    {
        self.flushed
    }

    #[verifier::when_used_as_spec(spec_buffer)]
    pub fn buffer(&self) -> (r: BufferSlice)
        ensures
            r == self.spec_buffer(),
    {
        self.buffer
    }

    /// The wrapped builder. As long as the update is held back, the recording
    /// of the wrapper is that of the wrapped builder with the update deferred;
    /// afterwards the two are the same.
    pub fn inner(&self) -> (r: &T)
        ensures
            r.capacity() == self.capacity(),
            self.recording() == if self.spec_is_flushed() {
                r.recording()
            } else {
                r.recording().defer(deferred_update(self.spec_buffer(), self.spec_data()))
            },
    {
        &self.inner
    }

    /// Hands the update to the wrapped builder, unless that has been done.
    fn flush(&mut self)
        ensures
            final(self).flushed,
            final(self).buffer == old(self).buffer,
            final(self).capacity() == old(self).capacity(),
            final(self).recording() == if old(self).flushed {
                old(self).recording()
            } else {
                old(self).recording().settled()
            },
    {
        if self.flushed {
            return ;
        }
        self.flushed = true;
        let mut data: Vec<u8> = Vec::new();
        core::mem::swap(&mut self.data, &mut data);
        let operation = RawOperation::UpdateBuffer {
            buffer: self.buffer.buffer.id,
            offset: self.buffer.offset,
            data,
        };
        proof {
            lemma_defer_then_finish(
                old(self).inner.recording(),
                deferred_update(old(self).buffer, old(self).data@),
            );
        }
        self.inner.add_command(operation);
    }

    /// Hands the update to the wrapped builder if a new use of `resource` has
    /// to follow it.
    fn flush_for(&mut self, resource: ResourceRef)
        ensures
            final(self).buffer == old(self).buffer,
            final(self).capacity() == old(self).capacity(),
            final(self).flushed == (old(self).flushed || old(
                self,
            ).buffer.spec_resource().spec_overlaps(resource)),
            final(self).flushed == old(self).flushed ==> *final(self) == *old(self),
            final(self).flushed != old(self).flushed ==> final(self).recording() == old(
                self,
            ).recording().settled(),
    {
        if !self.flushed && self.buffer.resource().overlaps(resource) {
            self.flush();
        }
    }
}

impl<T: StdCommandBufferBuilder> StdCommandBufferBuilder for StdUpdateBufferBuilder<T> {
    type BuildOutput = StdUpdateBuffer<T::BuildOutput>;

    closed spec fn recording(&self) -> Recording {
        if self.flushed {
            self.inner.recording()
        } else {
            self.inner.recording().defer(deferred_update(self.buffer, self.data@))
        }
    }

    closed spec fn capacity(&self) -> usize {
        self.inner.capacity()
    }

    fn add_command(&mut self, operation: RawOperation)
        ensures
            final(self).spec_is_flushed(),
            final(self).spec_buffer() == old(self).spec_buffer(),
    {
        self.flush();
        proof {
            if !old(self).flushed {
                lemma_settled_is_finished(old(self).recording().settled());
            }
        }
        self.inner.add_command(operation);
        assert(self.recording() =~= old(self).recording().add_command(operation@));
    }

    fn buffer_memory_barrier(
        &mut self,
        buffer: BufferSlice,
        src_stages: PipelineStages,
        src_access: AccessFlagBits,
        dst_stages: PipelineStages,
        dst_access: AccessFlagBits,
        by_region: bool,
        queue_transfer_from: Option<u32>,
    )
        ensures
            final(self).spec_is_flushed(),
            final(self).spec_buffer() == old(self).spec_buffer(),
    {
        self.flush();
        self.inner.buffer_memory_barrier(
            buffer,
            src_stages,
            src_access,
            dst_stages,
            dst_access,
            by_region,
            queue_transfer_from,
        );
    }

    fn transition_buffer_state(
        &mut self,
        buffer: BufferSlice,
        dst_stages: PipelineStages,
        dst_access: AccessFlagBits,
        by_region: bool,
    )
        ensures
            final(self).spec_buffer() == old(self).spec_buffer(),
            final(self).spec_is_flushed() == (old(self).spec_is_flushed() || old(
                self,
            ).spec_buffer().spec_resource().spec_overlaps(buffer.spec_resource())),
            !final(self).spec_is_flushed() ==> final(self).spec_data() == old(self).spec_data(),
    {
        proof {
            let held = deferred_update(self.buffer, self.data@);
            if !self.flushed {
                if held.resource.spec_overlaps(buffer.spec_resource()) {
                    lemma_transition_behind_deferred(
                        self.inner.recording(),
                        held,
                        buffer.spec_resource(),
                        dst_stages,
                        dst_access,
                        by_region,
                        None,
                    );
                    lemma_defer_then_finish(self.inner.recording(), held);
                } else {
                    lemma_transition_past_deferred(
                        self.inner.recording(),
                        held,
                        buffer.spec_resource(),
                        dst_stages,
                        dst_access,
                        by_region,
                        None,
                    );
                }
            }
        }
        self.flush_for(buffer.resource());
        self.inner.transition_buffer_state(buffer, dst_stages, dst_access, by_region);
    }

    fn transition_image_state(
        &mut self,
        image: &Image,
        mipmaps: Range<u32>,
        layers: Range<u32>,
        dst_stages: PipelineStages,
        dst_access: AccessFlagBits,
        by_region: bool,
        new_layout: Layout,
    )
        ensures
            final(self).spec_buffer() == old(self).spec_buffer(),
            final(self).spec_is_flushed() == (old(self).spec_is_flushed() || old(
                self,
            ).spec_buffer().spec_resource().spec_overlaps(
                image.spec_subresource(mipmaps.start, mipmaps.end, layers.start, layers.end),
            )),
            !final(self).spec_is_flushed() ==> final(self).spec_data() == old(self).spec_data(),
    {
        let resource = image.subresource(mipmaps.start, mipmaps.end, layers.start, layers.end);
        proof {
            let held = deferred_update(self.buffer, self.data@);
            if !self.flushed {
                if held.resource.spec_overlaps(resource) {
                    lemma_transition_behind_deferred(
                        self.inner.recording(),
                        held,
                        resource,
                        dst_stages,
                        dst_access,
                        by_region,
                        Some(new_layout),
                    );
                    lemma_defer_then_finish(self.inner.recording(), held);
                } else {
                    lemma_transition_past_deferred(
                        self.inner.recording(),
                        held,
                        resource,
                        dst_stages,
                        dst_access,
                        by_region,
                        Some(new_layout),
                    );
                }
            }
        }
        self.flush_for(resource);
        self.inner.transition_image_state(
            image,
            mipmaps,
            layers,
            dst_stages,
            dst_access,
            by_region,
            new_layout,
        );
    }

    fn current_image_layout(&self, image: &Image, mipmaps: Range<u32>, layers: Range<u32>) -> (r:
        Option<Layout>) {
        self.inner.current_image_layout(image, mipmaps, layers)
    }

    fn is_current_graphics_pipeline(&self) -> (r: bool) {
        self.inner.is_current_graphics_pipeline()
    }

    fn build(self) -> (r: Result<StdUpdateBuffer<T::BuildOutput>, StreamError>)
        ensures
            r matches Ok(buffer) ==> buffer.spec_buffer() == self.spec_buffer().buffer,
    {
        let mut builder = self;
        builder.flush();
        proof {
            if !self.flushed {
                lemma_settled_is_finished(self.recording().settled());
            }
        }
        let buffer = builder.buffer.buffer;
        match builder.inner.build() {
            Ok(inner) => Ok(StdUpdateBuffer { inner, buffer }),
            Err(error) => Err(error),
        }
    }
}

impl<T: StdCommandBuffer> StdUpdateBuffer<T> {
    /// The buffer that the update writes to.
    pub closed spec fn spec_buffer(&self) -> Buffer {
        self.buffer
    }

    #[verifier::when_used_as_spec(spec_buffer)]
    pub fn buffer(&self) -> (r: Buffer)
        ensures
            r == self.spec_buffer(),
    {
        self.buffer
    }

    /// The command buffer that was wrapped. It holds the update.
    pub fn inner(&self) -> (r: &T)
        ensures
            r.commands() == self.commands(),
            r.required_transitions() == self.required_transitions(),
    {
        &self.inner
    }
}

impl<T: StdCommandBuffer> StdCommandBuffer for StdUpdateBuffer<T> {
    closed spec fn commands(&self) -> Seq<Command> {
        self.inner.commands()
    }

    closed spec fn required_transitions(&self) -> Seq<BarrierRequest> {
        self.inner.required_transitions()
    }

    fn build_required_transitions(&self) -> (r: Option<PipelineBarrierBuilder>) {
        self.inner.build_required_transitions()
    }
}

} // verus!
