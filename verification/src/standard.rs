//! Builders that record a command stream and insert the barriers it needs.
//!
//! A builder holds three things besides the stream itself: the batch of barrier
//! requests that wait to be emitted, the table of resource states, and the
//! operations that wrappers have taken on but not yet handed to the stream. A
//! request joins the batch as long as the batch accepts it. The batch is emitted,
//! as one pipeline barrier, when an operation is about to be recorded, when a
//! request arrives that it cannot accept, and when recording ends.

use vstd::prelude::*;
use core::ops::Range;
use crate::barrier::{BarrierRequest, PipelineBarrierBuilder};
use crate::recording::Recording;
use crate::resource::{BufferSlice, Image, Layout};
use crate::state::known_layout;
use crate::sync::{AccessFlagBits, PipelineStages};
use crate::sys::{Command, StreamError, RawOperation};

pub mod primary;
pub mod update_buffer;

verus! {

/// A command buffer that is being recorded.
///
/// To record an operation that uses a resource, first ask for the transition
/// of the resource, then add the operation. The builder does not check that an
/// operation matches the transitions that were asked for.
pub trait StdCommandBufferBuilder: Sized {
    /// The finished command buffer.
    type BuildOutput: StdCommandBuffer;

    /// The state of the recording.
    spec fn recording(&self) -> Recording;

    /// The number of commands that the raw stream has room for.
    spec fn capacity(&self) -> usize;

    /// Records `operation`. Everything held back is emitted before it: the
    /// pending batch, then the deferred operations.
    fn add_command(&mut self, operation: RawOperation)
        ensures
            final(self).recording() == old(self).recording().add_command(operation@),
            final(self).capacity() == old(self).capacity(),
    ;

    /// Asks that the given accesses to `buffer` complete and become visible
    /// before the destination accesses begin, and notes the destination half as
    /// the state of `buffer`.
    ///
    /// Deferred operations are emitted first, behind the batch that waited. The
    /// request then joins the batch if the batch accepts it; if not, the batch
    /// is emitted and the request starts a new one.
    fn buffer_memory_barrier(
        &mut self,
        buffer: BufferSlice,
        src_stages: PipelineStages,
        src_access: AccessFlagBits,
        dst_stages: PipelineStages,
        dst_access: AccessFlagBits,
        by_region: bool,
        queue_transfer_from: Option<u32>,
    )
        ensures
            final(self).recording() == old(self).recording().barrier(
                BarrierRequest {
                    resource: buffer.spec_resource(),
                    src_stages,
                    src_access,
                    dst_stages,
                    dst_access,
                    by_region,
                    queue_transfer_from,
                    new_layout: None,
                },
            ),
            final(self).capacity() == old(self).capacity(),
    ;

    /// Asks that `buffer` be made available to the given stages and accesses,
    /// whatever it was last used for, and notes them as its state. A deferred
    /// operation that uses something of `buffer` is emitted first, with all
    /// that are older; the others stay deferred.
    fn transition_buffer_state(
        &mut self,
        buffer: BufferSlice,
        dst_stages: PipelineStages,
        dst_access: AccessFlagBits,
        by_region: bool,
    )
        ensures
            final(self).recording() == old(self).recording().transition(
                buffer.spec_resource(),
                dst_stages,
                dst_access,
                by_region,
                None,
            ),
            final(self).capacity() == old(self).capacity(),
    ;

    /// Asks that the given mipmap levels and array layers of `image` be made
    /// available to the given stages and accesses in the layout `new_layout`,
    /// and notes that as their state. A deferred operation that uses something
    /// of them is emitted first, with all that are older; the others stay
    /// deferred.
    fn transition_image_state(
        &mut self,
        image: &Image,
        mipmaps: Range<u32>,
        layers: Range<u32>,
        dst_stages: PipelineStages,
        dst_access: AccessFlagBits,
        by_region: bool,
        new_layout: Layout,
    )
        ensures
            final(self).recording() == old(self).recording().transition(
                image.spec_subresource(mipmaps.start, mipmaps.end, layers.start, layers.end),
                dst_stages,
                dst_access,
                by_region,
                Some(new_layout),
            ),
            final(self).capacity() == old(self).capacity(),
    ;

    /// The layout that the given mipmap levels and array layers of `image` are
    /// known to be in, all of them; `None` where that is not known.
    fn current_image_layout(&self, image: &Image, mipmaps: Range<u32>, layers: Range<u32>) -> (r:
        Option<Layout>)
        ensures
            r == known_layout(
                self.recording().states,
                image.spec_subresource(mipmaps.start, mipmaps.end, layers.start, layers.end),
            ),
    ;

    /// Whether the pipeline in question is the one bound to the graphics slot.
    /// Builders keep no record of bound pipelines, so the answer is always no.
    fn is_current_graphics_pipeline(&self) -> (r: bool)
        ensures
            !r,
    ;

    /// Ends recording. Everything held back is emitted, the batch first, and
    /// the raw stream is closed; that fails if the stream then holds more than
    /// it has room for.
    fn build(self) -> (r: Result<Self::BuildOutput, StreamError>)
        ensures
            match r {
                Ok(buffer) => {
                    &&& self.recording().finished().len() <= self.capacity()
                    &&& buffer.commands() == self.recording().finished()
                },
                Err(error) => {
                    &&& self.recording().finished().len() > self.capacity()
                    &&& error == StreamError::OutOfMemory
                },
            },
    ;
}

/// What `build` promises of its result, as a predicate: the command buffer
/// with everything that `builder` has recorded and held back, if the raw
/// stream has room for all of it, and an error if it has not.
pub open spec fn built<T: StdCommandBufferBuilder>(
    builder: T,
    result: Result<T::BuildOutput, StreamError>,
) -> bool {
    match result {
        Ok(buffer) => {
            &&& builder.recording().finished().len() <= builder.capacity()
            &&& buffer.commands() == builder.recording().finished()
        },
        Err(error) => {
            &&& builder.recording().finished().len() > builder.capacity()
            &&& error == StreamError::OutOfMemory
        },
    }
}

/// The outcome of recording depends on nothing but the recording: two
/// builders with the same recording and the same room end alike, in the same
/// commands or in the same error.
pub proof fn lemma_build_determined<A: StdCommandBufferBuilder, B: StdCommandBufferBuilder>(
    first: A,
    first_built: Result<A::BuildOutput, StreamError>,
    second: B,
    second_built: Result<B::BuildOutput, StreamError>,
)
    requires
        first.recording() == second.recording(),
        first.capacity() == second.capacity(),
        built(first, first_built),
        built(second, second_built),
    ensures
        first_built is Ok <==> second_built is Ok,
        first_built is Ok ==> first_built->Ok_0.commands() == second_built->Ok_0.commands(),
        first_built is Err ==> first_built->Err_0 == second_built->Err_0,
{
}

/// A command buffer that is ready to be submitted.
pub trait StdCommandBuffer: Sized {
    /// The commands of the buffer, in the order in which the device runs them.
    spec fn commands(&self) -> Seq<Command>;

    /// The requests that have to be carried out before the buffer is
    /// submitted, oldest first.
    spec fn required_transitions(&self) -> Seq<BarrierRequest>;

    /// The batch of transitions that has to be recorded and submitted right
    /// before the buffer, if there is any to carry out.
    fn build_required_transitions(&self) -> (r: Option<PipelineBarrierBuilder>)
        ensures
            match r {
                Some(batch) => batch@ == self.required_transitions() && batch@.len() > 0,
                None => self.required_transitions().len() == 0,
            },
    ;
}

} // verus!
