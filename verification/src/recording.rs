//! The state of a recording, and how each step of recording changes it.

use vstd::prelude::*;
use crate::barrier::{
    accepts, batch_after, compatible, lemma_batch_after_compatible, lemma_disjoint_requests_merge,
    merged, scope_of_two, BarrierRequest,
};
use crate::resource::{BufferSlice, Layout, ResourceRef};
use crate::state::{
    known_layout, lemma_known_layout_of_disjoint, lemma_known_layout_of_recorded,
    lemma_source_of_untouched, recorded, source_access, source_stages, untouched, ResourceState,
    StateEntry,
};
use crate::sync::{AccessFlagBits, PipelineStages};
use crate::sys::{Command, Operation};

verus! {

/// The stream once the batch `pending` has been emitted into it: one more
/// pipeline barrier, unless the batch is empty.
pub open spec fn flushed(stream: Seq<Command>, pending: Seq<BarrierRequest>) -> Seq<Command> {
    if pending.len() == 0 {
        stream
    } else {
        stream.push(Command::PipelineBarrier(pending))
    }
}

/// An operation that is held back, with the resource that it uses.
pub struct Deferred {
    pub operation: Operation,
    pub resource: ResourceRef,
}

/// The commands that the operations `deferred` become, in their order.
pub open spec fn as_commands(deferred: Seq<Deferred>) -> Seq<Command> {
    Seq::new(deferred.len(), |i: int| Command::Operation(deferred[i].operation))
}

/// The number of deferred operations that a new use of `resource` has to
/// follow: all up to the newest one that uses something of `resource`, and
/// none where no deferred operation does.
pub open spec fn blocking(deferred: Seq<Deferred>, resource: ResourceRef) -> nat
    decreases deferred.len(),
{
    if deferred.len() == 0 {
        0
    } else if deferred.last().resource.spec_overlaps(resource) {
        deferred.len()
    } else {
        blocking(deferred.drop_last(), resource)
    }
}

/// The request that moves `resource` from its last known use to the use given.
/// Its source half comes from the table; a resource without recorded use waits
/// for the top of the pipe and for no access.
pub open spec fn transition_request(
    states: Seq<StateEntry>,
    resource: ResourceRef,
    dst_stages: PipelineStages,
    dst_access: AccessFlagBits,
    by_region: bool,
    new_layout: Option<Layout>,
) -> BarrierRequest {
    BarrierRequest {
        resource,
        src_stages: source_stages(states, resource),
        src_access: source_access(states, resource),
        dst_stages,
        dst_access,
        by_region,
        queue_transfer_from: None,
        new_layout,
    }
}

/// The update of `buffer` with `data`, as an operation that is held back: it
/// writes `data` to the start of `buffer`, and uses `buffer`.
pub open spec fn deferred_update(buffer: BufferSlice, data: Seq<u8>) -> Deferred {
    Deferred {
        operation: Operation::UpdateBuffer {
            buffer: buffer.buffer.id,
            offset: buffer.offset,
            data,
        },
        resource: buffer.spec_resource(),
    }
}

/// All that the outcome of a recording depends on.
#[verifier::ext_equal]
pub struct Recording {
    /// What the raw stream holds so far.
    pub stream: Seq<Command>,
    /// The barrier requests that wait to be emitted, oldest first. They follow
    /// everything in `stream`.
    pub pending: Seq<BarrierRequest>,
    /// The operations that were taken on but not yet handed to the raw stream,
    /// oldest first. They follow the pending batch.
    pub deferred: Seq<Deferred>,
    /// The table of resource states, oldest line first.
    pub states: Seq<StateEntry>,
}

impl Recording {
    /// The recording that nothing has been asked of.
    pub open spec fn start() -> Recording {
        Recording {
            stream: Seq::empty(),
            pending: Seq::empty(),
            deferred: Seq::empty(),
            states: Seq::empty(),
        }
    }

    /// Whether the recording is one that recording can lead to: no two requests
    /// of the pending batch conflict, and every pipeline barrier in the stream
    /// carries a batch that is not empty and holds no conflict.
    pub open spec fn well_formed(self) -> bool {
        &&& compatible(self.pending)
        &&& forall|i: int|
            0 <= i < self.stream.len() ==> (#[trigger] self.stream[i]
                matches Command::PipelineBarrier(batch) ==> batch.len() > 0 && compatible(batch))
    }

    /// The stream once everything that is held back has been emitted into it:
    /// the batch first, as one pipeline barrier, then the deferred operations
    /// in their order.
    pub open spec fn finished(self) -> Seq<Command> {
        flushed(self.stream, self.pending) + as_commands(self.deferred)
    }

    /// The recording with everything that was held back emitted.
    pub open spec fn settled(self) -> Recording {
        Recording {
            stream: self.finished(),
            pending: Seq::empty(),
            deferred: Seq::empty(),
            states: self.states,
        }
    }

    /// The recording with the oldest `count` deferred operations emitted,
    /// behind the pending batch. With a `count` of zero nothing is emitted, the
    /// batch neither.
    pub open spec fn emitted(self, count: nat) -> Recording {
        if count == 0 {
            self
        } else {
            Recording {
                stream: flushed(self.stream, self.pending) + as_commands(
                    self.deferred.take(count as int),
                ),
                pending: Seq::empty(),
                deferred: self.deferred.skip(count as int),
                states: self.states,
            }
        }
    }

    /// After `operation` was added: everything held back is emitted, and the
    /// operation follows it.
    pub open spec fn add_command(self, operation: Operation) -> Recording {
        Recording {
            stream: self.finished().push(Command::Operation(operation)),
            pending: Seq::empty(),
            deferred: Seq::empty(),
            states: self.states,
        }
    }

    /// After `request` has reached the batch: it has joined the batch if the
    /// batch accepts it; if not, the batch is emitted and the request starts a
    /// new one.
    pub open spec fn request(self, request: BarrierRequest) -> Recording {
        Recording {
            stream: if accepts(self.pending, request) {
                self.stream
            } else {
                flushed(self.stream, self.pending)
            },
            pending: batch_after(self.pending, request),
            deferred: self.deferred,
            states: self.states,
        }
    }

    /// After `state` was noted as the state of `resource`.
    pub open spec fn note(self, resource: ResourceRef, state: ResourceState) -> Recording {
        Recording {
            stream: self.stream,
            pending: self.pending,
            deferred: self.deferred,
            states: recorded(self.states, resource, state),
        }
    }

    /// After an explicit barrier was asked for: deferred operations are emitted
    /// first, behind the batch that waited; then the request reaches the batch,
    /// and its destination half is noted as the state of its resource.
    pub open spec fn barrier(self, request: BarrierRequest) -> Recording {
        let base = if self.deferred.len() > 0 {
            self.settled()
        } else {
            self
        };
        base.request(request).note(
            request.resource,
            ResourceState {
                stages: request.dst_stages,
                access: request.dst_access,
                layout: request.new_layout,
            },
        )
    }

    /// After the transition of `resource` to a new use was asked for. The
    /// deferred operations that use something of `resource` are emitted first,
    /// with all that are older, behind the batch that waited: the new use has
    /// to follow them. The others stay deferred. Then the request that leads
    /// from the last known use to the new one reaches the batch, and the new
    /// use is noted.
    pub open spec fn transition(
        self,
        resource: ResourceRef,
        dst_stages: PipelineStages,
        dst_access: AccessFlagBits,
        by_region: bool,
        new_layout: Option<Layout>,
    ) -> Recording {
        self.emitted(blocking(self.deferred, resource)).request(
            transition_request(
                self.states,
                resource,
                dst_stages,
                dst_access,
                by_region,
                new_layout,
            ),
        ).note(
            resource,
            ResourceState { stages: dst_stages, access: dst_access, layout: new_layout },
        )
    }

    /// After `deferred` was taken on, to be emitted later.
    pub open spec fn defer(self, deferred: Deferred) -> Recording {
        Recording {
            stream: self.stream,
            pending: self.pending,
            deferred: self.deferred.push(deferred),
            states: self.states,
        }
    }

    /// After the update of `buffer` with `data` was taken on: the transition of
    /// `buffer` to a transfer write is asked for at once, the update itself is
    /// deferred.
    pub open spec fn update_buffer(self, buffer: BufferSlice, data: Seq<u8>) -> Recording {
        self.transition(
            buffer.spec_resource(),
            PipelineStages::spec_transfer(),
            AccessFlagBits::spec_transfer_write(),
            true,
            None,
        ).defer(deferred_update(buffer, data))
    }
}

/// Emitting one more deferred operation puts it at the very end of the stream.
pub proof fn lemma_defer_then_finish(recording: Recording, deferred: Deferred)
    ensures
        recording.defer(deferred).finished() == recording.finished().push(
            Command::Operation(deferred.operation),
        ),
        recording.defer(deferred).settled() == recording.add_command(deferred.operation),
{
    assert(recording.defer(deferred).finished() =~= recording.finished().push(
        Command::Operation(deferred.operation),
    ));
}

/// No more operations block a resource than are deferred.
pub proof fn lemma_blocking_bound(deferred: Seq<Deferred>, resource: ResourceRef)
    ensures
        blocking(deferred, resource) <= deferred.len(),
        blocking(deferred, resource) == 0 <==> forall|i: int|
            0 <= i < deferred.len() ==> !(#[trigger] deferred[i]).resource.spec_overlaps(resource),
    decreases deferred.len(),
{
    if deferred.len() > 0 {
        lemma_blocking_bound(deferred.drop_last(), resource);
        if !deferred.last().resource.spec_overlaps(resource) {
            if blocking(deferred, resource) == 0 {
                assert forall|i: int| 0 <= i < deferred.len() implies !(
                #[trigger] deferred[i]).resource.spec_overlaps(resource) by {
                    if i < deferred.len() - 1 {
                        assert(deferred.drop_last()[i] == deferred[i]);
                    }
                }
            } else {
                let i = choose|i: int|
                    0 <= i < deferred.drop_last().len() && (
                    #[trigger] deferred.drop_last()[i]).resource.spec_overlaps(resource);
                assert(deferred[i].resource.spec_overlaps(resource));
            }
        } else {
            assert(deferred[deferred.len() - 1].resource.spec_overlaps(resource));
        }
    }
}

/// A transition of a resource that the newest deferred operation does not use
/// goes by that operation: the operation stays deferred, and all else is as if
/// it had not been there.
pub proof fn lemma_transition_past_deferred(
    recording: Recording,
    deferred: Deferred,
    resource: ResourceRef,
    dst_stages: PipelineStages,
    dst_access: AccessFlagBits,
    by_region: bool,
    new_layout: Option<Layout>,
)
    requires
        !deferred.resource.spec_overlaps(resource),
    ensures
        recording.defer(deferred).transition(
            resource,
            dst_stages,
            dst_access,
            by_region,
            new_layout,
        ) == recording.transition(resource, dst_stages, dst_access, by_region, new_layout).defer(
            deferred,
        ),
{
    let count = blocking(recording.deferred, resource);
    let held = recording.deferred;
    lemma_blocking_bound(held, resource);
    assert(held.push(deferred).drop_last() == held);
    assert(held.push(deferred).take(count as int) == held.take(count as int));
    assert(held.push(deferred).skip(count as int) == held.skip(count as int).push(deferred));
    assert(recording.defer(deferred).emitted(count) == recording.emitted(count).defer(deferred));
}

/// A transition of a resource that the newest deferred operation uses follows
/// that operation: all is as if the operation had been added just before.
pub proof fn lemma_transition_behind_deferred(
    recording: Recording,
    deferred: Deferred,
    resource: ResourceRef,
    dst_stages: PipelineStages,
    dst_access: AccessFlagBits,
    by_region: bool,
    new_layout: Option<Layout>,
)
    requires
        deferred.resource.spec_overlaps(resource),
    ensures
        recording.defer(deferred).transition(
            resource,
            dst_stages,
            dst_access,
            by_region,
            new_layout,
        ) == recording.add_command(deferred.operation).transition(
            resource,
            dst_stages,
            dst_access,
            by_region,
            new_layout,
        ),
{
    let held = recording.deferred.push(deferred);
    let count = held.len();
    assert(held.take(count as int) == held);
    assert(held.skip(count as int) == Seq::<Deferred>::empty());
    lemma_defer_then_finish(recording, deferred);
    assert(recording.defer(deferred).emitted(count) == recording.add_command(deferred.operation));
    assert(blocking(Seq::<Deferred>::empty(), resource) == 0);
}

/// With nothing held back, the stream is all there is.
pub proof fn lemma_settled_is_finished(recording: Recording)
    requires
        recording.pending.len() == 0,
        recording.deferred.len() == 0,
    ensures
        recording.finished() == recording.stream,
        recording.settled() == recording,
{
    assert(recording.finished() =~= recording.stream);
    assert(recording.settled() =~= recording);
}

/// Two barriers for resources that have nothing in common, asked for one
/// after the other while nothing else is held back, end up in one batch: the
/// stream is untouched, the batch holds the two, and each set of its scope is
/// the union of the sets of the two.
pub proof fn lemma_disjoint_barriers_share_batch(
    recording: Recording,
    first: BarrierRequest,
    second: BarrierRequest,
)
    requires
        recording.pending.len() == 0,
        recording.deferred.len() == 0,
        !first.resource.spec_overlaps(second.resource),
    ensures
        recording.barrier(first).barrier(second).stream == recording.stream,
        recording.barrier(first).barrier(second).pending == seq![first, second],
        recording.barrier(first).barrier(second).deferred.len() == 0,
        merged(recording.barrier(first).barrier(second).pending) == scope_of_two(first, second),
{
    lemma_disjoint_requests_merge(first, second);
    assert(recording.pending =~= Seq::empty());
    assert(accepts(recording.pending, first));
    assert(accepts(recording.barrier(first).pending, second));
}

/// A barrier that is asked for is part of the batch right away, as its newest
/// request. An operation that is added next finds the batch emitted in front
/// of it, as the pipeline barrier just before the operation, and leaves no
/// request waiting.
pub proof fn lemma_barrier_before_operation(
    recording: Recording,
    request: BarrierRequest,
    operation: Operation,
)
    ensures
        recording.barrier(request).pending.len() > 0,
        recording.barrier(request).pending.last() == request,
        recording.barrier(request).deferred.len() == 0,
        recording.barrier(request).add_command(operation).stream == recording.barrier(
            request,
        ).stream.push(Command::PipelineBarrier(recording.barrier(request).pending)).push(
            Command::Operation(operation),
        ),
        recording.barrier(request).add_command(operation).pending.len() == 0,
{
    let asked = recording.barrier(request);
    assert(asked.finished() =~= asked.stream.push(Command::PipelineBarrier(asked.pending)));
}

/// A deferred operation is emitted by the first step that has to follow it,
/// once, in front of what that step records, and by no later step. Recording
/// goes on exactly as if the operation had been added just before that step.
pub proof fn lemma_deferred_emitted_once(
    recording: Recording,
    deferred: Deferred,
    operation: Operation,
    request: BarrierRequest,
)
    ensures
        recording.defer(deferred).add_command(operation) == recording.add_command(
            deferred.operation,
        ).add_command(operation),
        recording.defer(deferred).add_command(operation).stream == recording.finished().push(
            Command::Operation(deferred.operation),
        ).push(Command::Operation(operation)),
        recording.defer(deferred).barrier(request) == recording.add_command(
            deferred.operation,
        ).barrier(request),
        recording.defer(deferred).barrier(request).stream == recording.finished().push(
            Command::Operation(deferred.operation),
        ),
        recording.defer(deferred).finished() == recording.add_command(
            deferred.operation,
        ).finished(),
        recording.defer(deferred).finished() == recording.finished().push(
            Command::Operation(deferred.operation),
        ),
        recording.defer(deferred).add_command(operation).deferred.len() == 0,
        recording.defer(deferred).barrier(request).deferred.len() == 0,
{
    let direct = recording.add_command(deferred.operation);
    lemma_defer_then_finish(recording, deferred);
    lemma_settled_is_finished(direct);
    assert(accepts(direct.pending, request));
    assert(recording.defer(deferred).barrier(request) =~= direct.barrier(request));
}

/// Once nothing is deferred and nothing waits, a step adds to the stream what
/// it records and nothing else: an operation that was emitted is not emitted
/// again.
pub proof fn lemma_settled_steps_add_only_themselves(
    recording: Recording,
    operation: Operation,
    request: BarrierRequest,
)
    requires
        recording.pending.len() == 0,
        recording.deferred.len() == 0,
    ensures
        recording.add_command(operation).stream == recording.stream.push(
            Command::Operation(operation),
        ),
        recording.barrier(request).stream == recording.stream,
        recording.finished() == recording.stream,
{
    lemma_settled_is_finished(recording);
    assert(recording.pending =~= Seq::empty());
    assert(accepts(recording.pending, request));
}

/// Right after the transition of a block of an image to a layout, that layout
/// is the known layout of the block, provided the block is not empty. What is
/// known of a resource that has nothing in common with the block is what was
/// known before; of one that was untouched, nothing.
pub proof fn lemma_layout_after_transition(
    recording: Recording,
    resource: ResourceRef,
    dst_stages: PipelineStages,
    dst_access: AccessFlagBits,
    by_region: bool,
    new_layout: Layout,
    other: ResourceRef,
)
    ensures
        ({
            let after = recording.transition(
                resource,
                dst_stages,
                dst_access,
                by_region,
                Some(new_layout),
            );
            &&& !resource.spec_is_empty() ==> known_layout(after.states, resource) == Some(
                new_layout,
            )
            &&& !resource.spec_overlaps(other) ==> known_layout(after.states, other)
                == known_layout(recording.states, other)
            &&& !resource.spec_overlaps(other) && untouched(recording.states, other)
                ==> known_layout(after.states, other) is None
        }),
{
    let state = ResourceState { stages: dst_stages, access: dst_access, layout: Some(new_layout) };
    if !resource.spec_is_empty() {
        lemma_known_layout_of_recorded(recording.states, resource, state);
    }
    if !resource.spec_overlaps(other) {
        lemma_known_layout_of_disjoint(recording.states, resource, state, other);
    }
}

/// The request for the first use of `buffer` as the destination of a
/// transfer: there is nothing to wait for.
pub open spec fn first_transfer_write(buffer: BufferSlice) -> BarrierRequest {
    BarrierRequest {
        resource: buffer.spec_resource(),
        src_stages: PipelineStages::spec_top_of_pipe(),
        src_access: AccessFlagBits::spec_none(),
        dst_stages: PipelineStages::spec_transfer(),
        dst_access: AccessFlagBits::spec_transfer_write(),
        by_region: true,
        queue_transfer_from: None,
        new_layout: None,
    }
}

/// A recording that takes on one buffer update and nothing else ends in one
/// pipeline barrier, for the transition of the buffer, and the update behind
/// it.
pub proof fn lemma_single_update(buffer: BufferSlice, data: Seq<u8>)
    ensures
        Recording::start().update_buffer(buffer, data).stream == Seq::<Command>::empty(),
        Recording::start().update_buffer(buffer, data).finished() == seq![
            Command::PipelineBarrier(seq![first_transfer_write(buffer)]),
            Command::Operation(deferred_update(buffer, data).operation),
        ],
{
    let none = Seq::<StateEntry>::empty();
    let taken = Recording::start().update_buffer(buffer, data);
    lemma_source_of_untouched(none, buffer.spec_resource());
    assert(accepts(Seq::empty(), first_transfer_write(buffer)));
    assert(taken.pending =~= seq![first_transfer_write(buffer)]);
    assert(taken.finished() =~= seq![
        Command::PipelineBarrier(seq![first_transfer_write(buffer)]),
        Command::Operation(deferred_update(buffer, data).operation),
    ]);
}

/// A recording that takes on two updates of buffer ranges that have nothing in
/// common, and nothing else, ends in one pipeline barrier for the transitions
/// of both, and the two updates behind it, in the order in which they were
/// taken on.
pub proof fn lemma_two_disjoint_updates(
    first: BufferSlice,
    first_data: Seq<u8>,
    second: BufferSlice,
    second_data: Seq<u8>,
)
    requires
        !first.spec_resource().spec_overlaps(second.spec_resource()),
    ensures
        Recording::start().update_buffer(first, first_data).update_buffer(
            second,
            second_data,
        ).stream == Seq::<Command>::empty(),
        Recording::start().update_buffer(first, first_data).update_buffer(
            second,
            second_data,
        ).finished() == seq![
            Command::PipelineBarrier(
                seq![first_transfer_write(first), first_transfer_write(second)],
            ),
            Command::Operation(deferred_update(first, first_data).operation),
            Command::Operation(deferred_update(second, second_data).operation),
        ],
{
    let one = Recording::start().update_buffer(first, first_data);
    let two = one.update_buffer(second, second_data);
    let none = Seq::<StateEntry>::empty();
    lemma_source_of_untouched(none, first.spec_resource());
    assert(accepts(Seq::empty(), first_transfer_write(first)));
    assert(one.pending =~= seq![first_transfer_write(first)]);
    assert(one.deferred =~= seq![deferred_update(first, first_data)]);
    assert(one.states =~= seq![
        StateEntry {
            resource: first.spec_resource(),
            state: ResourceState {
                stages: PipelineStages::spec_transfer(),
                access: AccessFlagBits::spec_transfer_write(),
                layout: None,
            },
        },
    ]);
    assert(untouched(one.states, second.spec_resource()));
    lemma_source_of_untouched(one.states, second.spec_resource());
    lemma_blocking_bound(one.deferred, second.spec_resource());
    assert(blocking(one.deferred, second.spec_resource()) == 0);
    assert(accepts(one.pending, first_transfer_write(second)));
    assert(two.pending =~= seq![first_transfer_write(first), first_transfer_write(second)]);
    assert(two.deferred =~= seq![
        deferred_update(first, first_data),
        deferred_update(second, second_data),
    ]);
    assert(two.finished() =~= seq![
        Command::PipelineBarrier(seq![first_transfer_write(first), first_transfer_write(second)]),
        Command::Operation(deferred_update(first, first_data).operation),
        Command::Operation(deferred_update(second, second_data).operation),
    ]);
}

/// Recording starts well formed and stays so, whatever is asked of it.
pub proof fn lemma_steps_keep_well_formed(
    recording: Recording,
    operation: Operation,
    deferred: Deferred,
    request: BarrierRequest,
    resource: ResourceRef,
    dst_stages: PipelineStages,
    dst_access: AccessFlagBits,
    by_region: bool,
    new_layout: Option<Layout>,
)
    requires
        recording.well_formed(),
    ensures
        Recording::start().well_formed(),
        recording.settled().well_formed(),
        recording.add_command(operation).well_formed(),
        recording.defer(deferred).well_formed(),
        recording.barrier(request).well_formed(),
        recording.transition(resource, dst_stages, dst_access, by_region, new_layout).well_formed(),
{
    let asked = transition_request(
        recording.states,
        resource,
        dst_stages,
        dst_access,
        by_region,
        new_layout,
    );
    let base = recording.emitted(blocking(recording.deferred, resource));
    lemma_batch_after_compatible(recording.pending, request);
    lemma_batch_after_compatible(recording.settled().pending, request);
    assert(recording.settled().well_formed());
    assert(recording.add_command(operation).well_formed());
    assert(recording.request(request).well_formed());
    assert(recording.settled().request(request).well_formed());
    assert(base.well_formed());
    lemma_batch_after_compatible(base.pending, asked);
    assert(base.request(asked).well_formed());
}

} // verus!
