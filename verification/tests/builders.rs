use command_recorder::barrier::{BarrierRequest, PipelineBarrierBuilder};
use command_recorder::resource::{Buffer, BufferSlice, Image, Layout, ResourceRef};
use command_recorder::standard::primary::StdPrimaryCommandBufferBuilder;
use command_recorder::standard::update_buffer::{
    StdUpdateBufferBuilder, UpdateBufferError, MAX_UPDATE_SIZE,
};
use command_recorder::standard::{StdCommandBuffer, StdCommandBufferBuilder};
use command_recorder::state::{ResourceState, StateEntry};
use command_recorder::sync::{AccessFlagBits, PipelineStages};
use command_recorder::sys::{
    CommandPool, Flags, Kind, StreamError, RawCommand, RawOperation, UnsafeCommandBufferBuilder,
};

fn pool(available: usize, capacity: usize) -> CommandPool {
    CommandPool { available, capacity, device_lost: false }
}

fn primary() -> StdPrimaryCommandBufferBuilder {
    StdPrimaryCommandBufferBuilder::new(&mut pool(1, 64)).unwrap()
}

fn slice(id: u64, offset: u64, size: u64) -> BufferSlice {
    BufferSlice { buffer: Buffer { id, usage_transfer_dest: true }, offset, size }
}

fn vertex() -> PipelineStages {
    let mut stages = PipelineStages::none();
    stages.vertex_input = true;
    stages
}

fn attribute_read() -> AccessFlagBits {
    let mut access = AccessFlagBits::none();
    access.vertex_attribute_read = true;
    access
}

fn host() -> PipelineStages {
    let mut stages = PipelineStages::none();
    stages.host = true;
    stages
}

fn host_write() -> AccessFlagBits {
    let mut access = AccessFlagBits::none();
    access.host_write = true;
    access
}

fn explicit(buffer: BufferSlice) -> BarrierRequest {
    BarrierRequest {
        resource: buffer.resource(),
        src_stages: host(),
        src_access: host_write(),
        dst_stages: vertex(),
        dst_access: attribute_read(),
        by_region: false,
        queue_transfer_from: Some(1),
        new_layout: None,
    }
}

fn ask(builder: &mut impl StdCommandBufferBuilder, buffer: BufferSlice) {
    builder.buffer_memory_barrier(
        buffer,
        host(),
        host_write(),
        vertex(),
        attribute_read(),
        false,
        Some(1),
    );
}

fn to_transfer_write(resource: ResourceRef) -> BarrierRequest {
    BarrierRequest {
        resource,
        src_stages: PipelineStages::top_of_pipe(),
        src_access: AccessFlagBits::none(),
        dst_stages: PipelineStages::transfer(),
        dst_access: AccessFlagBits::transfer_write(),
        by_region: true,
        queue_transfer_from: None,
        new_layout: None,
    }
}

fn barrier_of(requests: &[BarrierRequest]) -> RawCommand {
    let mut batch = PipelineBarrierBuilder::new();
    for request in requests {
        assert!(batch.merge(*request));
    }
    RawCommand::PipelineBarrier(batch)
}

fn update(buffer: BufferSlice, data: &[u8]) -> RawCommand {
    RawCommand::Operation(RawOperation::UpdateBuffer {
        buffer: buffer.buffer.id,
        offset: buffer.offset,
        data: data.to_vec(),
    })
}

fn dispatch(x: u32) -> RawOperation {
    RawOperation::Dispatch { x, y: 1, z: 1 }
}

#[test]
fn a_stream_opens_empty_and_takes_a_buffer_from_the_pool() {
    let mut pool = pool(2, 8);
    let stream =
        UnsafeCommandBufferBuilder::new(&mut pool, Kind::Secondary, Flags::OneTimeSubmit).unwrap();
    assert_eq!(pool, CommandPool { available: 1, capacity: 8, device_lost: false });
    assert!(stream.commands().is_empty());
    assert_eq!(stream.kind(), Kind::Secondary);
    assert_eq!(stream.flags(), Flags::OneTimeSubmit);
    assert_eq!(stream.capacity(), 8);
}

#[test]
fn an_exhausted_pool_opens_no_stream() {
    let mut pool = pool(0, 8);
    let result = UnsafeCommandBufferBuilder::new(&mut pool, Kind::Primary, Flags::SequentialUse);
    assert_eq!(result.err(), Some(StreamError::PoolExhausted));
    assert_eq!(pool, CommandPool { available: 0, capacity: 8, device_lost: false });
    assert_eq!(
        StdPrimaryCommandBufferBuilder::new(&mut pool).err(),
        Some(StreamError::PoolExhausted)
    );
}

#[test]
fn a_lost_device_opens_no_stream() {
    let mut pool = CommandPool { available: 3, capacity: 8, device_lost: true };
    let result = UnsafeCommandBufferBuilder::new(&mut pool, Kind::Primary, Flags::SequentialUse);
    assert_eq!(result.err(), Some(StreamError::DeviceLost));
    assert_eq!(pool.available, 3);
    assert_eq!(StdPrimaryCommandBufferBuilder::new(&mut pool).err(), Some(StreamError::DeviceLost));
    let mut pool = CommandPool { available: 0, capacity: 8, device_lost: true };
    assert_eq!(StdPrimaryCommandBufferBuilder::new(&mut pool).err(), Some(StreamError::DeviceLost));
}

#[test]
fn a_stream_keeps_what_it_is_given_in_order() {
    let mut stream =
        UnsafeCommandBufferBuilder::new(&mut pool(1, 3), Kind::Primary, Flags::SimultaneousUse)
            .unwrap();
    stream.append(dispatch(1));
    let mut batch = PipelineBarrierBuilder::new();
    assert!(batch.merge(explicit(slice(1, 0, 16))));
    stream.pipeline_barrier(batch);
    stream.append(dispatch(2));
    assert_eq!(
        stream.commands(),
        &vec![
            RawCommand::Operation(dispatch(1)),
            barrier_of(&[explicit(slice(1, 0, 16))]),
            RawCommand::Operation(dispatch(2)),
        ]
    );
    let buffer = stream.build().unwrap();
    assert_eq!(buffer.commands().len(), 3);
    assert_eq!(buffer.kind(), Kind::Primary);
    assert_eq!(buffer.flags(), Flags::SimultaneousUse);
}

#[test]
fn a_stream_that_holds_more_than_it_has_room_for_does_not_close() {
    let mut stream =
        UnsafeCommandBufferBuilder::new(&mut pool(1, 1), Kind::Primary, Flags::SimultaneousUse)
            .unwrap();
    stream.append(dispatch(1));
    stream.append(dispatch(2));
    assert_eq!(stream.build().err(), Some(StreamError::OutOfMemory));
    let stream =
        UnsafeCommandBufferBuilder::new(&mut pool(1, 0), Kind::Primary, Flags::SimultaneousUse)
            .unwrap();
    assert!(stream.build().is_ok());
}

#[test]
fn a_primary_builder_starts_with_nothing() {
    let mut pool = pool(1, 64);
    let builder = StdPrimaryCommandBufferBuilder::new(&mut pool).unwrap();
    assert_eq!(pool.available, 0);
    assert!(builder.raw().commands().is_empty());
    assert!(builder.staging_barrier().is_empty());
    assert!(builder.resource_states().entries().is_empty());
    assert_eq!(builder.raw().kind(), Kind::Primary);
    assert_eq!(builder.raw().flags(), Flags::SimultaneousUse);
    assert_eq!(builder.raw().capacity(), 64);
    assert!(!builder.is_current_graphics_pipeline());
}

#[test]
fn two_barriers_for_disjoint_buffers_share_one_batch() {
    let mut builder = primary();
    let first = slice(1, 0, 16);
    let second = slice(1, 16, 16);
    builder.buffer_memory_barrier(
        first,
        PipelineStages::transfer(),
        AccessFlagBits::transfer_write(),
        vertex(),
        attribute_read(),
        true,
        None,
    );
    ask(&mut builder, second);
    assert!(builder.raw().commands().is_empty());
    let batch = builder.staging_barrier();
    assert_eq!(batch.requests().len(), 2);
    assert_eq!(batch.requests()[0].resource, first.resource());
    assert_eq!(batch.requests()[1], explicit(second));
    let scope = batch.scope();
    assert_eq!(scope.src_stages, PipelineStages::transfer().union(host()));
    assert_eq!(scope.src_access, AccessFlagBits::transfer_write().union(host_write()));
    assert_eq!(scope.dst_stages, vertex());
    assert_eq!(scope.dst_access, attribute_read());
    assert!(!scope.by_region);
}

#[test]
fn a_barrier_is_emitted_before_the_operation_that_follows() {
    let mut builder = primary();
    let buffer = slice(1, 0, 16);
    ask(&mut builder, buffer);
    assert!(builder.raw().commands().is_empty());
    builder.add_command(dispatch(7));
    assert_eq!(
        builder.raw().commands(),
        &vec![barrier_of(&[explicit(buffer)]), RawCommand::Operation(dispatch(7))]
    );
    assert!(builder.staging_barrier().is_empty());
}

#[test]
fn an_operation_without_pending_requests_gets_no_barrier() {
    let mut builder = primary();
    builder.add_command(dispatch(1));
    builder.add_command(dispatch(2));
    assert_eq!(
        builder.raw().commands(),
        &vec![RawCommand::Operation(dispatch(1)), RawCommand::Operation(dispatch(2))]
    );
}

#[test]
fn an_explicit_barrier_is_noted_as_the_state_of_the_buffer() {
    let mut builder = primary();
    let buffer = slice(1, 0, 16);
    ask(&mut builder, buffer);
    assert_eq!(
        builder.resource_states().entries(),
        &vec![StateEntry {
            resource: buffer.resource(),
            state: ResourceState { stages: vertex(), access: attribute_read(), layout: None },
        }]
    );
}

#[test]
fn a_first_transition_waits_for_the_top_of_the_pipe() {
    let mut builder = primary();
    let buffer = slice(1, 0, 16);
    builder.transition_buffer_state(
        buffer,
        PipelineStages::transfer(),
        AccessFlagBits::transfer_write(),
        true,
    );
    assert_eq!(
        builder.staging_barrier().requests(),
        &vec![to_transfer_write(buffer.resource())]
    );
    assert!(builder.raw().commands().is_empty());
}

#[test]
fn a_second_transition_waits_for_the_first_use() {
    let mut builder = primary();
    let buffer = slice(1, 0, 16);
    builder.transition_buffer_state(
        buffer,
        PipelineStages::transfer(),
        AccessFlagBits::transfer_write(),
        true,
    );
    builder.transition_buffer_state(buffer, vertex(), attribute_read(), false);
    let expected = BarrierRequest {
        resource: buffer.resource(),
        src_stages: PipelineStages::transfer(),
        src_access: AccessFlagBits::transfer_write(),
        dst_stages: vertex(),
        dst_access: attribute_read(),
        by_region: false,
        queue_transfer_from: None,
        new_layout: None,
    };
    assert_eq!(
        builder.staging_barrier().requests(),
        &vec![to_transfer_write(buffer.resource()), expected]
    );
    assert_eq!(builder.resource_states().entries().len(), 1);
    assert_eq!(builder.resource_states().source_stages(buffer.resource()), vertex());
}

#[test]
fn the_layout_of_an_image_is_known_after_its_transition() {
    let mut builder = primary();
    let image = Image { id: 9 };
    assert_eq!(builder.current_image_layout(&image, 0..4, 0..6), None);
    builder.transition_image_state(
        &image,
        0..4,
        0..6,
        PipelineStages::transfer(),
        AccessFlagBits::transfer_write(),
        true,
        Layout::TransferDstOptimal,
    );
    assert_eq!(builder.current_image_layout(&image, 0..4, 0..6), Some(Layout::TransferDstOptimal));
    assert_eq!(builder.current_image_layout(&image, 1..2, 5..6), Some(Layout::TransferDstOptimal));
    assert_eq!(builder.current_image_layout(&image, 4..5, 0..6), None);
    assert_eq!(builder.current_image_layout(&image, 0..4, 6..7), None);
    assert_eq!(builder.current_image_layout(&image, 3..5, 0..6), None);
    assert_eq!(builder.current_image_layout(&Image { id: 10 }, 0..4, 0..6), None);
    assert_eq!(builder.current_image_layout(&image, 2..2, 0..6), None);
    let request = builder.staging_barrier().requests()[0];
    assert_eq!(request.new_layout, Some(Layout::TransferDstOptimal));
    assert_eq!(request.src_stages, PipelineStages::top_of_pipe());
    assert_eq!(request.src_access, AccessFlagBits::none());
    assert_eq!(request.resource, image.subresource(0, 4, 0, 6));
}

#[test]
fn the_transition_of_an_empty_block_leaves_its_layout_unknown() {
    let mut builder = primary();
    let image = Image { id: 9 };
    builder.transition_image_state(
        &image,
        3..3,
        0..6,
        PipelineStages::transfer(),
        AccessFlagBits::transfer_write(),
        true,
        Layout::TransferDstOptimal,
    );
    assert_eq!(builder.current_image_layout(&image, 3..3, 0..6), None);
}

#[test]
fn a_request_that_the_batch_cannot_accept_emits_the_batch() {
    let mut builder = primary();
    let image = Image { id: 9 };
    builder.transition_image_state(
        &image,
        0..4,
        0..1,
        PipelineStages::transfer(),
        AccessFlagBits::transfer_write(),
        true,
        Layout::TransferDstOptimal,
    );
    ask(&mut builder, slice(1, 0, 16));
    builder.transition_image_state(
        &image,
        2..3,
        0..1,
        vertex(),
        attribute_read(),
        true,
        Layout::ShaderReadOnlyOptimal,
    );
    let commands = builder.raw().commands();
    assert_eq!(commands.len(), 1);
    match &commands[0] {
        RawCommand::PipelineBarrier(batch) => {
            assert_eq!(batch.requests().len(), 2);
            assert_eq!(batch.requests()[0].new_layout, Some(Layout::TransferDstOptimal));
            assert_eq!(batch.requests()[1], explicit(slice(1, 0, 16)));
        },
        RawCommand::Operation(_) => panic!("an operation was recorded"),
    }
    let waiting = builder.staging_barrier().requests();
    assert_eq!(waiting.len(), 1);
    assert_eq!(waiting[0].new_layout, Some(Layout::ShaderReadOnlyOptimal));
    assert_eq!(waiting[0].src_stages, PipelineStages::transfer());
    assert_eq!(waiting[0].src_access, AccessFlagBits::transfer_write());
    assert_eq!(
        builder.current_image_layout(&image, 2..3, 0..1),
        Some(Layout::ShaderReadOnlyOptimal)
    );
    assert_eq!(builder.current_image_layout(&image, 0..2, 0..1), Some(Layout::TransferDstOptimal));
    assert_eq!(builder.current_image_layout(&image, 0..4, 0..1), None);
}

#[test]
fn building_emits_the_pending_batch() {
    let mut builder = primary();
    builder.add_command(dispatch(1));
    ask(&mut builder, slice(1, 0, 16));
    let buffer = builder.build().unwrap();
    assert_eq!(
        buffer.raw().commands(),
        &vec![RawCommand::Operation(dispatch(1)), barrier_of(&[explicit(slice(1, 0, 16))])]
    );
    assert_eq!(buffer.raw().kind(), Kind::Primary);
    assert_eq!(buffer.raw().flags(), Flags::SimultaneousUse);
    assert!(buffer.build_required_transitions().is_none());
}

#[test]
fn building_nothing_gives_an_empty_buffer() {
    let buffer = primary().build().unwrap();
    assert!(buffer.raw().commands().is_empty());
    assert!(buffer.build_required_transitions().is_none());
}

#[test]
fn building_more_than_the_stream_has_room_for_fails() {
    let mut builder = StdPrimaryCommandBufferBuilder::new(&mut pool(1, 1)).unwrap();
    builder.add_command(dispatch(1));
    ask(&mut builder, slice(1, 0, 16));
    assert_eq!(builder.build().err(), Some(StreamError::OutOfMemory));
    let mut builder = StdPrimaryCommandBufferBuilder::new(&mut pool(1, 2)).unwrap();
    builder.add_command(dispatch(1));
    ask(&mut builder, slice(1, 0, 16));
    assert!(builder.build().is_ok());
}

#[test]
fn the_same_calls_give_the_same_buffer() {
    let record = || {
        let mut builder = primary();
        ask(&mut builder, slice(1, 0, 16));
        builder.add_command(dispatch(3));
        builder.transition_image_state(
            &Image { id: 2 },
            0..1,
            0..1,
            vertex(),
            attribute_read(),
            true,
            Layout::General,
        );
        let wrapped = StdUpdateBufferBuilder::new(builder, slice(4, 0, 8), vec![1; 8]);
        match wrapped {
            Ok(wrapped) => wrapped.build().unwrap(),
            Err(_) => panic!("the update was turned down"),
        }
    };
    let first = record();
    let second = record();
    assert_eq!(first.inner().raw(), second.inner().raw());
    assert_eq!(first.inner().raw().commands().len(), 4);
}

#[test]
fn a_simple_update_is_one_barrier_and_one_operation() {
    let buffer = slice(1, 0, 16);
    let data: Vec<u8> = (0..16).collect();
    let wrapped = match StdUpdateBufferBuilder::new(primary(), buffer, data.clone()) {
        Ok(wrapped) => wrapped,
        Err(_) => panic!("the update was turned down"),
    };
    assert!(!wrapped.is_flushed());
    assert_eq!(wrapped.buffer(), buffer);
    assert!(wrapped.inner().raw().commands().is_empty());
    assert_eq!(
        wrapped.inner().staging_barrier().requests(),
        &vec![to_transfer_write(buffer.resource())]
    );
    let built = wrapped.build().unwrap();
    assert_eq!(
        built.inner().raw().commands(),
        &vec![barrier_of(&[to_transfer_write(buffer.resource())]), update(buffer, &data)]
    );
    assert_eq!(built.buffer(), buffer.buffer);
    assert!(built.build_required_transitions().is_none());
}

#[test]
fn an_update_with_too_much_data_is_turned_down() {
    let mut builder = primary();
    builder.add_command(dispatch(1));
    ask(&mut builder, slice(2, 0, 4));
    let result = StdUpdateBufferBuilder::new(builder, slice(1, 0, 16), vec![0; 65537]);
    match result {
        Ok(_) => panic!("the update was taken on"),
        Err((builder, error)) => {
            assert_eq!(error, UpdateBufferError::DataTooLarge);
            assert_eq!(builder.raw().commands(), &vec![RawCommand::Operation(dispatch(1))]);
            assert_eq!(builder.staging_barrier().requests(), &vec![explicit(slice(2, 0, 4))]);
            assert_eq!(builder.resource_states().entries().len(), 1);
        },
    }
    let result = StdUpdateBufferBuilder::new(primary(), slice(1, 0, 16), vec![0; 65537]);
    match result {
        Ok(_) => panic!("the update was taken on"),
        Err((builder, error)) => {
            assert_eq!(error, UpdateBufferError::DataTooLarge);
            assert!(builder.raw().commands().is_empty());
            assert!(builder.staging_barrier().is_empty());
            assert!(builder.resource_states().entries().is_empty());
        },
    }
}

#[test]
fn an_update_with_the_most_data_allowed_is_taken_on() {
    assert_eq!(MAX_UPDATE_SIZE, 65536);
    let result = StdUpdateBufferBuilder::new(primary(), slice(1, 0, 65536), vec![0; 65536]);
    assert!(result.is_ok());
    let result = StdUpdateBufferBuilder::new(primary(), slice(1, 0, 0), Vec::new());
    assert!(result.is_ok());
}

#[test]
fn an_update_at_a_misaligned_offset_is_turned_down() {
    for offset in [1, 2, 3, 5, 18] {
        let result = StdUpdateBufferBuilder::new(primary(), slice(1, offset, 16), vec![0; 16]);
        assert_eq!(result.err().map(|(_, error)| error), Some(UpdateBufferError::OffsetNotAligned));
    }
    let result = StdUpdateBufferBuilder::new(primary(), slice(1, 2, 3), vec![0; 65537]);
    assert_eq!(result.err().map(|(_, error)| error), Some(UpdateBufferError::OffsetNotAligned));
}

#[test]
fn an_update_of_a_misaligned_size_is_turned_down() {
    for size in [1, 2, 3, 5, 18] {
        let result = StdUpdateBufferBuilder::new(primary(), slice(1, 4, size), vec![0; 16]);
        assert_eq!(result.err().map(|(_, error)| error), Some(UpdateBufferError::SizeNotAligned));
    }
    let result = StdUpdateBufferBuilder::new(primary(), slice(1, 4, 3), vec![0; 65537]);
    assert_eq!(result.err().map(|(_, error)| error), Some(UpdateBufferError::SizeNotAligned));
}

#[test]
fn an_update_of_a_buffer_that_is_no_transfer_destination_is_turned_down() {
    let buffer = BufferSlice {
        buffer: Buffer { id: 1, usage_transfer_dest: false },
        offset: 0,
        size: 16,
    };
    let result = StdUpdateBufferBuilder::new(primary(), buffer, vec![0; 16]);
    assert_eq!(
        result.err().map(|(_, error)| error),
        Some(UpdateBufferError::MissingTransferDestUsage)
    );
    let result = StdUpdateBufferBuilder::new(primary(), buffer, vec![0; 65537]);
    assert_eq!(result.err().map(|(_, error)| error), Some(UpdateBufferError::DataTooLarge));
}

#[test]
fn two_stacked_updates_share_one_barrier() {
    let first = slice(1, 0, 16);
    let second = slice(1, 16, 8);
    let inner = match StdUpdateBufferBuilder::new(primary(), first, vec![1; 16]) {
        Ok(wrapped) => wrapped,
        Err(_) => panic!("the first update was turned down"),
    };
    let outer = match StdUpdateBufferBuilder::new(inner, second, vec![2; 8]) {
        Ok(wrapped) => wrapped,
        Err(_) => panic!("the second update was turned down"),
    };
    assert!(!outer.is_flushed());
    assert!(!outer.inner().is_flushed());
    assert!(outer.inner().inner().raw().commands().is_empty());
    let built = outer.build().unwrap();
    assert_eq!(
        built.inner().inner().raw().commands(),
        &vec![
            barrier_of(&[
                to_transfer_write(first.resource()),
                to_transfer_write(second.resource()),
            ]),
            update(first, &[1; 16]),
            update(second, &[2; 8]),
        ]
    );
    match &built.inner().inner().raw().commands()[0] {
        RawCommand::PipelineBarrier(batch) => {
            assert_eq!(batch.scope().src_stages, PipelineStages::top_of_pipe());
            assert_eq!(batch.scope().dst_stages, PipelineStages::transfer());
            assert_eq!(batch.scope().dst_access, AccessFlagBits::transfer_write());
            assert!(batch.scope().by_region);
        },
        RawCommand::Operation(_) => panic!("the barrier is missing"),
    }
}

#[test]
fn an_operation_added_to_the_wrapper_follows_the_update() {
    let buffer = slice(1, 0, 16);
    let mut wrapped = match StdUpdateBufferBuilder::new(primary(), buffer, vec![5; 16]) {
        Ok(wrapped) => wrapped,
        Err(_) => panic!("the update was turned down"),
    };
    wrapped.add_command(dispatch(1));
    assert!(wrapped.is_flushed());
    let expected = vec![
        barrier_of(&[to_transfer_write(buffer.resource())]),
        update(buffer, &[5; 16]),
        RawCommand::Operation(dispatch(1)),
    ];
    assert_eq!(wrapped.inner().raw().commands(), &expected);
    wrapped.add_command(dispatch(2));
    ask(&mut wrapped, slice(3, 0, 4));
    let built = wrapped.build().unwrap();
    let commands = built.inner().raw().commands();
    assert_eq!(commands.len(), 5);
    assert_eq!(commands[..3], expected[..]);
    assert_eq!(commands[3], RawCommand::Operation(dispatch(2)));
    assert_eq!(commands[4], barrier_of(&[explicit(slice(3, 0, 4))]));
    let updates = commands
        .iter()
        .filter(|command| {
            matches!(command, RawCommand::Operation(RawOperation::UpdateBuffer { .. }))
        })
        .count();
    assert_eq!(updates, 1);
}

#[test]
fn a_barrier_asked_of_the_wrapper_follows_the_update() {
    let buffer = slice(1, 0, 16);
    let mut wrapped = match StdUpdateBufferBuilder::new(primary(), buffer, vec![5; 16]) {
        Ok(wrapped) => wrapped,
        Err(_) => panic!("the update was turned down"),
    };
    ask(&mut wrapped, slice(3, 0, 4));
    assert!(wrapped.is_flushed());
    assert_eq!(
        wrapped.inner().raw().commands(),
        &vec![barrier_of(&[to_transfer_write(buffer.resource())]), update(buffer, &[5; 16])]
    );
    assert_eq!(wrapped.inner().staging_barrier().requests(), &vec![explicit(slice(3, 0, 4))]);
    ask(&mut wrapped, slice(3, 4, 4));
    assert_eq!(wrapped.inner().raw().commands().len(), 2);
    assert_eq!(wrapped.inner().staging_barrier().requests().len(), 2);
}

#[test]
fn a_transition_asked_of_the_wrapper_does_not_emit_the_update() {
    let buffer = slice(1, 0, 16);
    let mut wrapped = match StdUpdateBufferBuilder::new(primary(), buffer, vec![5; 16]) {
        Ok(wrapped) => wrapped,
        Err(_) => panic!("the update was turned down"),
    };
    let image = Image { id: 2 };
    wrapped.transition_image_state(
        &image,
        0..1,
        0..1,
        vertex(),
        attribute_read(),
        true,
        Layout::General,
    );
    wrapped.transition_buffer_state(slice(5, 0, 4), vertex(), attribute_read(), true);
    assert!(!wrapped.is_flushed());
    assert!(wrapped.inner().raw().commands().is_empty());
    assert_eq!(wrapped.inner().staging_barrier().requests().len(), 3);
    assert_eq!(wrapped.current_image_layout(&image, 0..1, 0..1), Some(Layout::General));
    assert!(!wrapped.is_current_graphics_pipeline());
    let built = wrapped.build().unwrap();
    let commands = built.inner().raw().commands();
    assert_eq!(commands.len(), 2);
    assert_eq!(commands[1], update(buffer, &[5; 16]));
}

#[test]
fn an_update_behind_recorded_work_keeps_its_place() {
    let mut builder = primary();
    builder.add_command(dispatch(1));
    ask(&mut builder, slice(3, 0, 4));
    let buffer = slice(1, 0, 16);
    let wrapped = match StdUpdateBufferBuilder::new(builder, buffer, vec![5; 16]) {
        Ok(wrapped) => wrapped,
        Err(_) => panic!("the update was turned down"),
    };
    let built = wrapped.build().unwrap();
    assert_eq!(
        built.inner().raw().commands(),
        &vec![
            RawCommand::Operation(dispatch(1)),
            barrier_of(&[explicit(slice(3, 0, 4)), to_transfer_write(buffer.resource())]),
            update(buffer, &[5; 16]),
        ]
    );
}

#[test]
fn a_wrapper_hands_on_the_failure_to_close_the_stream() {
    let builder = StdPrimaryCommandBufferBuilder::new(&mut pool(1, 1)).unwrap();
    let wrapped = match StdUpdateBufferBuilder::new(builder, slice(1, 0, 16), vec![5; 16]) {
        Ok(wrapped) => wrapped,
        Err(_) => panic!("the update was turned down"),
    };
    assert_eq!(wrapped.build().err(), Some(StreamError::OutOfMemory));
}

#[test]
fn updates_can_be_chained_on_the_builders() {
    let first = slice(1, 0, 4);
    let second = slice(2, 8, 4);
    let wrapped = match primary().update_buffer(first, vec![1, 2, 3, 4]) {
        Ok(wrapped) => wrapped,
        Err(_) => panic!("the first update was turned down"),
    };
    let wrapped = match wrapped.update_buffer(second, vec![5, 6, 7, 8]) {
        Ok(wrapped) => wrapped,
        Err(_) => panic!("the second update was turned down"),
    };
    let turned_down = wrapped.update_buffer(slice(3, 1, 4), vec![0; 4]);
    let wrapped = match turned_down {
        Ok(_) => panic!("a misaligned update was taken on"),
        Err((wrapped, error)) => {
            assert_eq!(error, UpdateBufferError::OffsetNotAligned);
            wrapped
        },
    };
    assert!(!wrapped.is_flushed());
    assert_eq!(wrapped.inner().inner().staging_barrier().requests().len(), 2);
    let built = wrapped.build().unwrap();
    assert_eq!(
        built.inner().inner().raw().commands(),
        &vec![
            barrier_of(&[
                to_transfer_write(first.resource()),
                to_transfer_write(second.resource()),
            ]),
            update(first, &[1, 2, 3, 4]),
            update(second, &[5, 6, 7, 8]),
        ]
    );
}

#[test]
fn a_second_update_of_the_same_range_waits_for_the_first() {
    let buffer = slice(1, 0, 4);
    let wrapped = match primary().update_buffer(buffer, vec![1, 2, 3, 4]) {
        Ok(wrapped) => wrapped,
        Err(_) => panic!("the first update was turned down"),
    };
    let wrapped = match wrapped.update_buffer(slice(1, 0, 8), vec![5, 6, 7, 8]) {
        Ok(wrapped) => wrapped,
        Err(_) => panic!("the second update was turned down"),
    };
    assert!(wrapped.inner().is_flushed());
    assert!(!wrapped.is_flushed());
    let again = BarrierRequest {
        resource: slice(1, 0, 8).resource(),
        src_stages: PipelineStages::transfer(),
        src_access: AccessFlagBits::transfer_write(),
        dst_stages: PipelineStages::transfer(),
        dst_access: AccessFlagBits::transfer_write(),
        by_region: true,
        queue_transfer_from: None,
        new_layout: None,
    };
    assert_eq!(
        wrapped.inner().inner().raw().commands(),
        &vec![barrier_of(&[to_transfer_write(buffer.resource())]), update(buffer, &[1, 2, 3, 4])]
    );
    assert_eq!(wrapped.inner().inner().staging_barrier().requests(), &vec![again]);
    let built = wrapped.build().unwrap();
    assert_eq!(
        built.inner().inner().raw().commands(),
        &vec![
            barrier_of(&[to_transfer_write(buffer.resource())]),
            update(buffer, &[1, 2, 3, 4]),
            barrier_of(&[again]),
            update(slice(1, 0, 8), &[5, 6, 7, 8]),
        ]
    );
}

#[test]
fn a_transition_of_the_updated_buffer_follows_the_update() {
    let buffer = slice(1, 0, 16);
    let mut wrapped = match primary().update_buffer(buffer, vec![5; 16]) {
        Ok(wrapped) => wrapped,
        Err(_) => panic!("the update was turned down"),
    };
    wrapped.transition_buffer_state(slice(1, 8, 4), vertex(), attribute_read(), false);
    assert!(wrapped.is_flushed());
    assert_eq!(
        wrapped.inner().raw().commands(),
        &vec![barrier_of(&[to_transfer_write(buffer.resource())]), update(buffer, &[5; 16])]
    );
    let read = BarrierRequest {
        resource: slice(1, 8, 4).resource(),
        src_stages: PipelineStages::transfer(),
        src_access: AccessFlagBits::transfer_write(),
        dst_stages: vertex(),
        dst_access: attribute_read(),
        by_region: false,
        queue_transfer_from: None,
        new_layout: None,
    };
    assert_eq!(wrapped.inner().staging_barrier().requests(), &vec![read]);
    wrapped.add_command(dispatch(1));
    assert_eq!(
        wrapped.inner().raw().commands(),
        &vec![
            barrier_of(&[to_transfer_write(buffer.resource())]),
            update(buffer, &[5; 16]),
            barrier_of(&[read]),
            RawCommand::Operation(dispatch(1)),
        ]
    );
}

#[test]
fn a_transition_that_an_inner_update_blocks_leaves_the_outer_update_deferred() {
    let first = slice(1, 0, 4);
    let second = slice(2, 0, 4);
    let wrapped = match primary().update_buffer(first, vec![1; 4]) {
        Ok(wrapped) => wrapped,
        Err(_) => panic!("the first update was turned down"),
    };
    let mut wrapped = match wrapped.update_buffer(second, vec![2; 4]) {
        Ok(wrapped) => wrapped,
        Err(_) => panic!("the second update was turned down"),
    };
    wrapped.transition_buffer_state(first, vertex(), attribute_read(), true);
    assert!(!wrapped.is_flushed());
    assert!(wrapped.inner().is_flushed());
    assert_eq!(
        wrapped.inner().inner().raw().commands(),
        &vec![
            barrier_of(&[
                to_transfer_write(first.resource()),
                to_transfer_write(second.resource()),
            ]),
            update(first, &[1; 4]),
        ]
    );
    let built = wrapped.build().unwrap();
    let commands = built.inner().inner().raw().commands();
    assert_eq!(commands.len(), 4);
    assert_eq!(commands[3], update(second, &[2; 4]));
    match &commands[2] {
        RawCommand::PipelineBarrier(batch) => {
            assert_eq!(batch.requests().len(), 1);
            assert_eq!(batch.requests()[0].resource, first.resource());
            assert_eq!(batch.requests()[0].src_access, AccessFlagBits::transfer_write());
        },
        RawCommand::Operation(_) => panic!("the barrier is missing"),
    }
}
