use command_recorder::barrier::{BarrierRequest, BarrierScope, PipelineBarrierBuilder};
use command_recorder::resource::{Image, Layout, ResourceRef};
use command_recorder::state::{ResourceState, ResourceStateTable, StateEntry};
use command_recorder::sync::{AccessFlagBits, PipelineStages};

fn bytes(buffer: u64, offset: u64, size: u64) -> ResourceRef {
    ResourceRef::Buffer { buffer, offset, size }
}

fn block(image: u64, mipmaps: (u32, u32), layers: (u32, u32)) -> ResourceRef {
    ResourceRef::Image {
        image,
        mipmaps_start: mipmaps.0,
        mipmaps_end: mipmaps.1,
        layers_start: layers.0,
        layers_end: layers.1,
    }
}

fn compute() -> PipelineStages {
    let mut stages = PipelineStages::none();
    stages.compute_shader = true;
    stages
}

fn fragment() -> PipelineStages {
    let mut stages = PipelineStages::none();
    stages.fragment_shader = true;
    stages
}

fn shader_read() -> AccessFlagBits {
    let mut access = AccessFlagBits::none();
    access.shader_read = true;
    access
}

fn shader_write() -> AccessFlagBits {
    let mut access = AccessFlagBits::none();
    access.shader_write = true;
    access
}

fn write_then_read(resource: ResourceRef, new_layout: Option<Layout>) -> BarrierRequest {
    BarrierRequest {
        resource,
        src_stages: PipelineStages::transfer(),
        src_access: AccessFlagBits::transfer_write(),
        dst_stages: fragment(),
        dst_access: shader_read(),
        by_region: true,
        queue_transfer_from: None,
        new_layout,
    }
}

fn compute_then_transfer(resource: ResourceRef, new_layout: Option<Layout>) -> BarrierRequest {
    BarrierRequest {
        resource,
        src_stages: compute(),
        src_access: shader_write(),
        dst_stages: PipelineStages::transfer(),
        dst_access: AccessFlagBits::transfer_write(),
        by_region: false,
        queue_transfer_from: Some(2),
        new_layout,
    }
}

fn state(stages: PipelineStages, access: AccessFlagBits, layout: Option<Layout>) -> ResourceState {
    ResourceState { stages, access, layout }
}

#[test]
fn a_new_batch_is_empty() {
    let batch = PipelineBarrierBuilder::new();
    assert!(batch.is_empty());
    assert!(batch.requests().is_empty());
    assert_eq!(batch.scope(), BarrierScope::empty());
    assert_eq!(batch.scope().src_stages, PipelineStages::none());
    assert_eq!(batch.scope().dst_access, AccessFlagBits::none());
    assert!(batch.scope().by_region);
}

#[test]
fn requests_for_disjoint_resources_merge() {
    let first = write_then_read(bytes(1, 0, 16), None);
    let second = compute_then_transfer(bytes(1, 16, 16), None);
    let mut batch = PipelineBarrierBuilder::new();
    assert!(batch.merge(first));
    assert!(batch.merge(second));
    assert_eq!(batch.requests(), &vec![first, second]);
    let scope = batch.scope();
    assert_eq!(scope.src_stages, PipelineStages::transfer().union(compute()));
    assert_eq!(scope.src_access, AccessFlagBits::transfer_write().union(shader_write()));
    assert_eq!(scope.dst_stages, fragment().union(PipelineStages::transfer()));
    assert_eq!(scope.dst_access, shader_read().union(AccessFlagBits::transfer_write()));
    assert!(!scope.by_region);
}

#[test]
fn the_scope_of_one_request_is_that_request() {
    let request = write_then_read(bytes(1, 0, 16), None);
    let mut batch = PipelineBarrierBuilder::new();
    assert!(batch.merge(request));
    let expected = BarrierScope {
        src_stages: request.src_stages,
        src_access: request.src_access,
        dst_stages: request.dst_stages,
        dst_access: request.dst_access,
        by_region: true,
    };
    assert_eq!(batch.scope(), expected);
    assert_eq!(BarrierScope::empty().with(request), expected);
}

#[test]
fn requests_for_the_same_buffer_range_merge() {
    let first = write_then_read(bytes(1, 0, 16), None);
    let second = compute_then_transfer(bytes(1, 8, 16), None);
    assert!(!first.conflicts_with(second));
    let mut batch = PipelineBarrierBuilder::new();
    assert!(batch.merge(first));
    assert!(batch.merge(second));
    assert_eq!(batch.requests().len(), 2);
}

#[test]
fn overlapping_image_blocks_with_different_layouts_conflict() {
    let first = write_then_read(block(1, (0, 2), (0, 1)), Some(Layout::ShaderReadOnlyOptimal));
    let second =
        compute_then_transfer(block(1, (1, 3), (0, 1)), Some(Layout::TransferDstOptimal));
    assert!(first.conflicts_with(second));
    assert!(second.conflicts_with(first));
    let mut batch = PipelineBarrierBuilder::new();
    assert!(batch.accepts(first));
    assert!(batch.merge(first));
    assert!(!batch.accepts(second));
    assert!(!batch.merge(second));
    assert_eq!(batch.requests(), &vec![first]);
}

#[test]
fn overlapping_image_blocks_with_one_layout_merge() {
    let first = write_then_read(block(1, (0, 2), (0, 1)), Some(Layout::TransferDstOptimal));
    let second =
        compute_then_transfer(block(1, (1, 3), (0, 1)), Some(Layout::TransferDstOptimal));
    let third = compute_then_transfer(block(1, (1, 3), (0, 1)), None);
    assert!(!first.conflicts_with(second));
    assert!(!first.conflicts_with(third));
    let mut batch = PipelineBarrierBuilder::new();
    assert!(batch.merge(first));
    assert!(batch.merge(second));
    assert!(batch.merge(third));
    assert_eq!(batch.requests(), &vec![first, second, third]);
}

#[test]
fn disjoint_image_blocks_with_different_layouts_merge() {
    let first = write_then_read(block(1, (0, 1), (0, 1)), Some(Layout::ShaderReadOnlyOptimal));
    let second =
        compute_then_transfer(block(1, (1, 2), (0, 1)), Some(Layout::TransferDstOptimal));
    assert!(!first.conflicts_with(second));
    let mut batch = PipelineBarrierBuilder::new();
    assert!(batch.merge(first));
    assert!(batch.merge(second));
    assert_eq!(batch.requests().len(), 2);
}

#[test]
fn a_conflict_with_an_older_request_is_found() {
    let old = write_then_read(block(1, (0, 1), (0, 1)), Some(Layout::General));
    let middle = write_then_read(bytes(4, 0, 4), None);
    let new = write_then_read(block(1, (0, 1), (0, 1)), Some(Layout::PresentSrc));
    let mut batch = PipelineBarrierBuilder::new();
    assert!(batch.merge(old));
    assert!(batch.merge(middle));
    assert!(!batch.merge(new));
    assert_eq!(batch.requests(), &vec![old, middle]);
}

#[test]
fn taking_a_batch_leaves_it_empty() {
    let first = write_then_read(bytes(1, 0, 16), None);
    let mut batch = PipelineBarrierBuilder::new();
    assert!(batch.merge(first));
    let taken = batch.take();
    assert!(batch.is_empty());
    assert_eq!(taken.requests(), &vec![first]);
    assert!(!taken.is_empty());
    assert_eq!(batch, PipelineBarrierBuilder::new());
}

#[test]
fn a_new_table_knows_nothing() {
    let table = ResourceStateTable::new();
    assert!(table.entries().is_empty());
    assert_eq!(table.known_layout(&Image { id: 1 }, 0..1, 0..1), None);
    assert_eq!(table.level_layout(1, 0, 0), None);
    assert_eq!(table.prior_use(bytes(1, 0, 16)), ResourceState::unused());
    assert_eq!(table.source_stages(bytes(1, 0, 16)), PipelineStages::top_of_pipe());
    assert_eq!(table.source_access(bytes(1, 0, 16)), AccessFlagBits::none());
}

#[test]
fn a_recorded_layout_is_known() {
    let mut table = ResourceStateTable::new();
    let image = Image { id: 1 };
    table.record(
        image.subresource(0, 4, 0, 6),
        state(fragment(), shader_read(), Some(Layout::ShaderReadOnlyOptimal)),
    );
    assert_eq!(table.known_layout(&image, 0..4, 0..6), Some(Layout::ShaderReadOnlyOptimal));
    assert_eq!(table.known_layout(&image, 1..2, 3..4), Some(Layout::ShaderReadOnlyOptimal));
    assert_eq!(table.level_layout(1, 3, 5), Some(Layout::ShaderReadOnlyOptimal));
    assert_eq!(table.level_layout(1, 4, 5), None);
    assert_eq!(table.level_layout(1, 3, 6), None);
    assert_eq!(table.level_layout(2, 3, 5), None);
}

#[test]
fn the_layout_of_what_was_not_touched_is_unknown() {
    let mut table = ResourceStateTable::new();
    let image = Image { id: 1 };
    table.record(
        image.subresource(0, 4, 0, 6),
        state(fragment(), shader_read(), Some(Layout::ShaderReadOnlyOptimal)),
    );
    assert_eq!(table.known_layout(&image, 4..5, 0..6), None);
    assert_eq!(table.known_layout(&image, 3..5, 0..6), None);
    assert_eq!(table.known_layout(&image, 0..4, 5..7), None);
    assert_eq!(table.known_layout(&Image { id: 2 }, 0..4, 0..6), None);
}

#[test]
fn the_layout_of_an_empty_block_is_unknown() {
    let mut table = ResourceStateTable::new();
    let image = Image { id: 1 };
    table.record(
        image.subresource(0, 4, 0, 6),
        state(fragment(), shader_read(), Some(Layout::ShaderReadOnlyOptimal)),
    );
    assert_eq!(table.known_layout(&image, 0..0, 0..6), None);
    assert_eq!(table.known_layout(&image, 2..2, 0..6), None);
    assert_eq!(table.known_layout(&image, 3..1, 0..6), None);
    assert_eq!(table.known_layout(&image, 0..4, 6..6), None);
}

#[test]
fn the_layout_of_a_block_in_two_states_is_unknown() {
    let mut table = ResourceStateTable::new();
    let image = Image { id: 1 };
    table.record(
        image.subresource(0, 2, 0, 1),
        state(fragment(), shader_read(), Some(Layout::General)),
    );
    table.record(
        image.subresource(2, 4, 0, 1),
        state(fragment(), shader_read(), Some(Layout::PresentSrc)),
    );
    assert_eq!(table.known_layout(&image, 0..4, 0..1), None);
    assert_eq!(table.known_layout(&image, 1..3, 0..1), None);
    assert_eq!(table.known_layout(&image, 0..2, 0..1), Some(Layout::General));
    assert_eq!(table.known_layout(&image, 2..4, 0..1), Some(Layout::PresentSrc));
}

#[test]
fn a_block_that_several_lines_put_in_one_layout_is_in_that_layout() {
    let mut table = ResourceStateTable::new();
    let image = Image { id: 1 };
    table.record(
        image.subresource(0, 2, 0, 3),
        state(fragment(), shader_read(), Some(Layout::General)),
    );
    table.record(
        image.subresource(2, 4, 0, 3),
        state(compute(), shader_write(), Some(Layout::General)),
    );
    assert_eq!(table.entries().len(), 2);
    assert_eq!(table.known_layout(&image, 0..4, 0..3), Some(Layout::General));
    assert_eq!(table.known_layout(&image, 1..3, 1..2), Some(Layout::General));
    assert_eq!(table.known_layout(&image, 1..5, 1..2), None);
    table.record(
        image.subresource(1, 3, 1, 2),
        state(compute(), shader_write(), Some(Layout::PresentSrc)),
    );
    assert_eq!(table.known_layout(&image, 0..4, 0..3), None);
    assert_eq!(table.known_layout(&image, 0..4, 0..1), Some(Layout::General));
    assert_eq!(table.known_layout(&image, 0..1, 0..3), Some(Layout::General));
    assert_eq!(table.known_layout(&image, 1..3, 1..2), Some(Layout::PresentSrc));
}

#[test]
fn a_line_without_layout_leaves_the_layout_unknown() {
    let mut table = ResourceStateTable::new();
    let image = Image { id: 1 };
    table.record(
        image.subresource(0, 4, 0, 1),
        state(fragment(), shader_read(), Some(Layout::General)),
    );
    table.record(image.subresource(1, 2, 0, 1), state(fragment(), shader_read(), None));
    assert_eq!(table.known_layout(&image, 1..2, 0..1), None);
    assert_eq!(table.known_layout(&image, 0..4, 0..1), None);
    assert_eq!(table.known_layout(&image, 0..1, 0..1), Some(Layout::General));
}

#[test]
fn the_newest_line_decides_the_layout() {
    let mut table = ResourceStateTable::new();
    let image = Image { id: 1 };
    table.record(
        image.subresource(0, 4, 0, 1),
        state(fragment(), shader_read(), Some(Layout::General)),
    );
    table.record(
        image.subresource(1, 2, 0, 1),
        state(fragment(), shader_read(), Some(Layout::PresentSrc)),
    );
    assert_eq!(table.known_layout(&image, 1..2, 0..1), Some(Layout::PresentSrc));
    assert_eq!(table.known_layout(&image, 0..1, 0..1), Some(Layout::General));
    assert_eq!(table.known_layout(&image, 2..4, 0..1), Some(Layout::General));
    assert_eq!(table.known_layout(&image, 0..4, 0..1), None);
}

#[test]
fn recording_drops_the_lines_it_covers() {
    let mut table = ResourceStateTable::new();
    let first = state(PipelineStages::transfer(), AccessFlagBits::transfer_write(), None);
    let second = state(compute(), shader_write(), None);
    let third = state(fragment(), shader_read(), None);
    table.record(bytes(1, 0, 16), first);
    table.record(bytes(1, 32, 16), second);
    table.record(bytes(1, 0, 24), third);
    assert_eq!(
        table.entries(),
        &vec![
            StateEntry { resource: bytes(1, 32, 16), state: second },
            StateEntry { resource: bytes(1, 0, 24), state: third },
        ]
    );
    table.record(bytes(1, 0, 24), first);
    assert_eq!(
        table.entries(),
        &vec![
            StateEntry { resource: bytes(1, 32, 16), state: second },
            StateEntry { resource: bytes(1, 0, 24), state: first },
        ]
    );
}

#[test]
fn the_source_of_a_new_use_is_the_prior_use() {
    let mut table = ResourceStateTable::new();
    table.record(
        bytes(1, 0, 16),
        state(PipelineStages::transfer(), AccessFlagBits::transfer_write(), None),
    );
    assert_eq!(table.source_stages(bytes(1, 0, 16)), PipelineStages::transfer());
    assert_eq!(table.source_access(bytes(1, 0, 16)), AccessFlagBits::transfer_write());
    assert_eq!(table.source_stages(bytes(1, 16, 16)), PipelineStages::top_of_pipe());
    assert_eq!(table.source_access(bytes(1, 16, 16)), AccessFlagBits::none());
}

#[test]
fn the_prior_use_joins_all_lines_that_overlap() {
    let mut table = ResourceStateTable::new();
    table.record(
        bytes(1, 0, 16),
        state(PipelineStages::transfer(), AccessFlagBits::transfer_write(), None),
    );
    table.record(bytes(1, 16, 16), state(compute(), shader_write(), None));
    table.record(bytes(2, 0, 64), state(fragment(), shader_read(), None));
    let prior = table.prior_use(bytes(1, 8, 16));
    assert_eq!(prior.stages, PipelineStages::transfer().union(compute()));
    assert_eq!(prior.access, AccessFlagBits::transfer_write().union(shader_write()));
    assert_eq!(prior.layout, None);
    assert_eq!(table.source_stages(bytes(1, 8, 16)), PipelineStages::transfer().union(compute()));
}

#[test]
fn a_prior_use_without_stages_waits_for_the_top_of_the_pipe() {
    let mut table = ResourceStateTable::new();
    table.record(bytes(1, 0, 16), state(PipelineStages::none(), shader_read(), None));
    assert_eq!(table.source_stages(bytes(1, 0, 16)), PipelineStages::top_of_pipe());
    assert_eq!(table.source_access(bytes(1, 0, 16)), shader_read());
}

#[test]
fn joining_states_unites_them_and_forgets_the_layout() {
    let a = state(
        PipelineStages::transfer(),
        AccessFlagBits::transfer_write(),
        Some(Layout::General),
    );
    let b = state(compute(), shader_write(), Some(Layout::General));
    let joined = a.join(b);
    assert_eq!(joined.stages, PipelineStages::transfer().union(compute()));
    assert_eq!(joined.access, AccessFlagBits::transfer_write().union(shader_write()));
    assert_eq!(joined.layout, None);
    assert_eq!(ResourceState::unused().join(ResourceState::unused()), ResourceState::unused());
}
