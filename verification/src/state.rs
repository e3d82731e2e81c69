//! The table of what is known about the last use of each resource.

use vstd::prelude::*;
use core::ops::Range;
use crate::resource::{
    lemma_common_cell, lemma_covered_cell, lemma_covers_itself, Cell, Image, Layout, ResourceRef,
};
use crate::sync::{
    lemma_access_union_includes, lemma_access_union_none, lemma_stages_union_includes,
    lemma_stages_union_none, AccessFlagBits, PipelineStages,
};

verus! {

/// How a resource was last used: by which stages, with which accesses and, for
/// an image, in which layout it was left.
#[derive(Clone, Copy, Debug, PartialEq, Eq, Structural)]
pub struct ResourceState {
    pub stages: PipelineStages,
    pub access: AccessFlagBits,
    pub layout: Option<Layout>,
}

/// One line of the table: a resource and the state it was put in.
#[derive(Clone, Copy, Debug, PartialEq, Eq, Structural)]
pub struct StateEntry {
    pub resource: ResourceRef,
    pub state: ResourceState,
}

impl ResourceState {
    /// The state of a resource that nothing has used.
    pub open spec fn spec_unused() -> ResourceState {
        ResourceState {
            stages: PipelineStages::spec_none(),
            access: AccessFlagBits::spec_none(),
            layout: None,
        }
    }

    /// The stages and accesses of both states together. The layout is left out:
    /// a combined state stands for several uses at once.
    pub open spec fn spec_join(self, other: ResourceState) -> ResourceState {
        ResourceState {
            stages: self.stages.spec_union(other.stages),
            access: self.access.spec_union(other.access),
            layout: None,
        }
    }

    #[verifier::when_used_as_spec(spec_unused)]
    pub fn unused() -> (r: ResourceState)
        ensures
            r == Self::spec_unused(),
    {
        ResourceState {
            stages: PipelineStages::none(),
            access: AccessFlagBits::none(),
            layout: None,
        }
    }

    #[verifier::when_used_as_spec(spec_join)]
    pub fn join(self, other: ResourceState) -> (r: ResourceState)
        ensures
            r == self.spec_join(other),
    {
        ResourceState {
            stages: self.stages.union(other.stages),
            access: self.access.union(other.access),
            layout: None,
        }
    }
}

/// The stages and accesses of every line of `entries` whose resource overlaps
/// `resource`, taken together.
pub open spec fn prior_use(entries: Seq<StateEntry>, resource: ResourceRef) -> ResourceState
    decreases entries.len(),
{
    if entries.len() == 0 {
        ResourceState::spec_unused()
    } else {
        let rest = prior_use(entries.drop_last(), resource);
        if entries.last().resource.spec_overlaps(resource) {
            rest.spec_join(entries.last().state)
        } else {
            rest
        }
    }
}

/// The stages that a new use of `resource` has to wait for: those of its prior
/// use, or the top of the pipe where there is none to wait for.
pub open spec fn source_stages(entries: Seq<StateEntry>, resource: ResourceRef) -> PipelineStages {
    let prior = prior_use(entries, resource).stages;
    if prior == PipelineStages::spec_none() {
        PipelineStages::spec_top_of_pipe()
    } else {
        prior
    }
}

/// The accesses whose effects a new use of `resource` has to see.
pub open spec fn source_access(entries: Seq<StateEntry>, resource: ResourceRef) -> AccessFlagBits {
    prior_use(entries, resource).access
}

/// The lines of `entries` that `resource` does not cover whole, in their order.
pub open spec fn without_covered(entries: Seq<StateEntry>, resource: ResourceRef) -> Seq<
    StateEntry,
>
    decreases entries.len(),
{
    if entries.len() == 0 {
        Seq::empty()
    } else {
        let rest = without_covered(entries.drop_last(), resource);
        if resource.spec_covers(entries.last().resource) {
            rest
        } else {
            rest.push(entries.last())
        }
    }
}

/// The table after `resource` was put in `state`: the lines that the new one
/// makes obsolete are gone, and the new line is the newest.
pub open spec fn recorded(
    entries: Seq<StateEntry>,
    resource: ResourceRef,
    state: ResourceState,
) -> Seq<StateEntry> {
    without_covered(entries, resource).push(StateEntry { resource, state })
}

/// What the table says of a single cell: the state of the newest line whose
/// resource holds the cell, if there is one.
pub open spec fn cell_state(entries: Seq<StateEntry>, cell: Cell) -> Option<ResourceState>
    decreases entries.len(),
{
    if entries.len() == 0 {
        None
    } else if entries.last().resource.contains(cell) {
        Some(entries.last().state)
    } else {
        cell_state(entries.drop_last(), cell)
    }
}

/// The layout that the table gives for a single cell, if it gives one.
pub open spec fn cell_layout(entries: Seq<StateEntry>, cell: Cell) -> Option<Layout> {
    match cell_state(entries, cell) {
        Some(state) => state.layout,
        None => None,
    }
}

/// Whether the table gives `layout` for every cell of `resource`.
pub open spec fn uniformly_in(
    entries: Seq<StateEntry>,
    resource: ResourceRef,
    layout: Layout,
) -> bool {
    forall|cell: Cell|
        #![trigger resource.contains(cell)]
        #![trigger cell_layout(entries, cell)]
        resource.contains(cell) ==> cell_layout(entries, cell) == Some(layout)
}

/// The layout in which the table knows all of `resource` to be: the one layout
/// that it gives for every cell of `resource`. `None` where `resource` is
/// empty, where the table gives no layout for one of its cells, and where it
/// gives different layouts for two of them.
pub open spec fn known_layout(entries: Seq<StateEntry>, resource: ResourceRef) -> Option<Layout> {
    if !resource.spec_is_empty() && exists|layout: Layout| uniformly_in(entries, resource, layout) {
        Some(choose|layout: Layout| uniformly_in(entries, resource, layout))
    } else {
        None
    }
}

/// Whether no line of `entries` has anything in common with `resource`.
pub open spec fn untouched(entries: Seq<StateEntry>, resource: ResourceRef) -> bool {
    forall|i: int|
        0 <= i < entries.len() ==> !(#[trigger] entries[i]).resource.spec_overlaps(resource)
}

/// The last known state of each resource that was used, oldest line first.
pub struct ResourceStateTable {
    entries: Vec<StateEntry>,
}

impl View for ResourceStateTable {
    type V = Seq<StateEntry>;

    closed spec fn view(&self) -> Seq<StateEntry> {
        self.entries@
    }
}

impl ResourceStateTable {
    /// A table that knows of no use.
    pub fn new() -> (r: ResourceStateTable)
        ensures
            r@ == Seq::<StateEntry>::empty(),
    {
        ResourceStateTable { entries: Vec::new() }
    }

    /// The lines of the table, oldest first.
    pub fn entries(&self) -> (r: &Vec<StateEntry>)
        ensures
            r@ == self@,
    {
        &self.entries
    }

    /// The stages and accesses of all recorded uses that overlap `resource`.
    pub fn prior_use(&self, resource: ResourceRef) -> (r: ResourceState)
        ensures
            r == prior_use(self@, resource),
    {
        let mut prior = ResourceState::unused();
        let mut i: usize = 0;
        while i < self.entries.len()
            invariant
                i <= self.entries@.len(),
                prior == prior_use(self.entries@.take(i as int), resource),
            decreases self.entries@.len() - i,
        {
            proof {
                assert(self.entries@.take(i + 1).drop_last() == self.entries@.take(i as int));
            }
            if self.entries[i].resource.overlaps(resource) {
                prior = prior.join(self.entries[i].state);
            }
            i += 1;
        }
        proof {
            assert(self.entries@.take(i as int) == self.entries@);
        }
        prior
    }

    /// The stages that a new use of `resource` has to wait for.
    pub fn source_stages(&self, resource: ResourceRef) -> (r: PipelineStages)
        ensures
            r == source_stages(self@, resource),
    {
        let prior = self.prior_use(resource).stages;
        if prior == PipelineStages::none() {
            PipelineStages::top_of_pipe()
        } else {
            prior
        }
    }

    /// The accesses whose effects a new use of `resource` has to see.
    pub fn source_access(&self, resource: ResourceRef) -> (r: AccessFlagBits)
        ensures
            r == source_access(self@, resource),
    {
        self.prior_use(resource).access
    }

    /// The layout that the table gives for one mipmap level of one array layer
    /// of an image.
    pub fn level_layout(&self, image: u64, mipmap: u32, layer: u32) -> (r: Option<Layout>)
        ensures
            r == cell_layout(
                self@,
                Cell::Level { image, mipmap: mipmap as int, layer: layer as int },
            ),
    {
        let ghost cell = Cell::Level { image, mipmap: mipmap as int, layer: layer as int };
        let mut i: usize = self.entries.len();
        proof {
            assert(self.entries@.take(i as int) == self.entries@);
        }
        while i > 0
            invariant
                i <= self.entries@.len(),
                cell == (Cell::Level { image, mipmap: mipmap as int, layer: layer as int }),
                cell_state(self.entries@, cell) == cell_state(self.entries@.take(i as int), cell),
            decreases i,
        {
            let entry = self.entries[i - 1];
            proof {
                assert(self.entries@.take(i as int).last() == entry);
                assert(self.entries@.take(i as int).drop_last() == self.entries@.take(i - 1));
            }
            if entry.resource.holds_level(image, mipmap, layer) {
                return entry.state.layout;
            }
            i -= 1;
        }
        proof {
            assert(self.entries@.take(0).len() == 0);
        }
        None
    }

    /// The layout in which the given mipmap levels and array layers of `image`
    /// are known to be, all of them, if there is such a layout.
    pub fn known_layout(&self, image: &Image, mipmaps: Range<u32>, layers: Range<u32>) -> (r:
        Option<Layout>)
        ensures
            r == known_layout(
                self@,
                image.spec_subresource(mipmaps.start, mipmaps.end, layers.start, layers.end),
            ),
    {
        let ghost resource = image.spec_subresource(
            mipmaps.start,
            mipmaps.end,
            layers.start,
            layers.end,
        );
        if mipmaps.start >= mipmaps.end || layers.start >= layers.end {
            proof {
                reveal(ResourceRef::spec_is_empty);
            }
            return None;
        }
        let ghost corner = Cell::Level {
            image: image.id,
            mipmap: mipmaps.start as int,
            layer: layers.start as int,
        };
        let block = image.subresource(mipmaps.start, mipmaps.end, layers.start, layers.end);
        let mut i: usize = self.entries.len();
        while i > 0
            invariant
                i <= self.entries@.len(),
                block == resource,
                resource == image.spec_subresource(
                    mipmaps.start,
                    mipmaps.end,
                    layers.start,
                    layers.end,
                ),
                resource.contains(corner),
                forall|j: int|
                    i <= j < self.entries@.len() ==> !(
                    #[trigger] self.entries@[j]).resource.spec_overlaps(resource),
            decreases i,
        {
            let entry = self.entries[i - 1];
            if entry.resource.overlaps(block) {
                if entry.resource.covers(block) {
                    proof {
                        assert forall|cell: Cell| resource.contains(cell) implies cell_layout(
                            self@,
                            cell,
                        ) == entry.state.layout by {
                            lemma_cell_state_of_newest(self@, i - 1, resource, cell);
                        }
                        match entry.state.layout {
                            Some(layout) => {
                                lemma_common_cell(resource, resource, corner);
                                lemma_layout_of_every_cell(self@, resource, layout);
                            },
                            None => {
                                lemma_cell_without_layout(self@, resource, corner);
                            },
                        }
                    }
                    return entry.state.layout;
                }
                break ;
            }
            i -= 1;
        }
        let layout = match self.level_layout(image.id, mipmaps.start, layers.start) {
            Some(layout) => layout,
            None => {
                proof {
                    lemma_cell_without_layout(self@, resource, corner);
                }
                return None;
            },
        };
        let mut mipmap = mipmaps.start;
        while mipmap < mipmaps.end
            invariant
                mipmaps.start <= mipmap <= mipmaps.end,
                layers.start < layers.end,
                resource == image.spec_subresource(
                    mipmaps.start,
                    mipmaps.end,
                    layers.start,
                    layers.end,
                ),
                corner == (Cell::Level {
                    image: image.id,
                    mipmap: mipmaps.start as int,
                    layer: layers.start as int,
                }),
                cell_layout(self@, corner) == Some(layout),
                forall|m: int, l: int|
                    mipmaps.start <= m < mipmap && layers.start <= l < layers.end
                        ==> #[trigger] cell_layout(
                        self@,
                        Cell::Level { image: image.id, mipmap: m, layer: l },
                    ) == Some(layout),
            decreases mipmaps.end - mipmap,
        {
            let mut layer = layers.start;
            while layer < layers.end
                invariant
                    mipmaps.start <= mipmap < mipmaps.end,
                    layers.start <= layer <= layers.end,
                    resource == image.spec_subresource(
                        mipmaps.start,
                        mipmaps.end,
                        layers.start,
                        layers.end,
                    ),
                    corner == (Cell::Level {
                        image: image.id,
                        mipmap: mipmaps.start as int,
                        layer: layers.start as int,
                    }),
                    cell_layout(self@, corner) == Some(layout),
                    forall|m: int, l: int|
                        mipmaps.start <= m < mipmap && layers.start <= l < layers.end
                            ==> #[trigger] cell_layout(
                            self@,
                            Cell::Level { image: image.id, mipmap: m, layer: l },
                        ) == Some(layout),
                    forall|l: int|
                        layers.start <= l < layer ==> #[trigger] cell_layout(
                            self@,
                            Cell::Level { image: image.id, mipmap: mipmap as int, layer: l },
                        ) == Some(layout),
                decreases layers.end - layer,
            {
                let found = self.level_layout(image.id, mipmap, layer);
                let same = match found {
                    Some(other) => other == layout,
                    None => false,
                };
                if !same {
                    proof {
                        lemma_cells_in_two_layouts(
                            self@,
                            resource,
                            corner,
                            Cell::Level {
                                image: image.id,
                                mipmap: mipmap as int,
                                layer: layer as int,
                            },
                        );
                    }
                    return None;
                }
                layer += 1;
            }
            mipmap += 1;
        }
        proof {
            assert forall|cell: Cell| resource.contains(cell) implies cell_layout(self@, cell)
                == Some(layout) by {
                match cell {
                    Cell::Level { image: i, mipmap: m, layer: l } => {
                        assert(cell == Cell::Level { image: image.id, mipmap: m, layer: l });
                    },
                    Cell::Byte { .. } => {},
                }
            }
            lemma_common_cell(resource, resource, corner);
            lemma_layout_of_every_cell(self@, resource, layout);
        }
        Some(layout)
    }

    /// Notes that `resource` is now in `state`.
    pub fn record(&mut self, resource: ResourceRef, state: ResourceState)
        ensures
            final(self)@ == recorded(old(self)@, resource, state),
    {
        let mut kept: Vec<StateEntry> = Vec::new();
        let mut i: usize = 0;
        while i < self.entries.len()
            invariant
                i <= self.entries@.len(),
                kept@ == without_covered(self.entries@.take(i as int), resource),
            decreases self.entries@.len() - i,
        {
            proof {
                assert(self.entries@.take(i + 1).drop_last() == self.entries@.take(i as int));
            }
            if !resource.covers(self.entries[i].resource) {
                kept.push(self.entries[i]);
            }
            i += 1;
        }
        proof {
            assert(self.entries@.take(i as int) == self.entries@);
        }
        kept.push(StateEntry { resource, state });
        self.entries = kept;
    }
}

/// A line that covers a resource, with no newer line that touches the
/// resource, decides the state of every cell of the resource.
proof fn lemma_cell_state_of_newest(
    entries: Seq<StateEntry>,
    i: int,
    resource: ResourceRef,
    cell: Cell,
)
    requires
        0 <= i < entries.len(),
        entries[i].resource.spec_covers(resource),
        forall|j: int|
            i < j < entries.len() ==> !(#[trigger] entries[j]).resource.spec_overlaps(resource),
        resource.contains(cell),
    ensures
        cell_state(entries, cell) == Some(entries[i].state),
    decreases entries.len(),
{
    if i == entries.len() - 1 {
        lemma_covered_cell(entries[i].resource, resource, cell);
    } else {
        let last = entries[entries.len() - 1];
        if last.resource.contains(cell) {
            lemma_common_cell(last.resource, resource, cell);
        }
        assert forall|j: int| i < j < entries.drop_last().len() implies !(
        #[trigger] entries.drop_last()[j]).resource.spec_overlaps(resource) by {
            assert(entries.drop_last()[j] == entries[j]);
        }
        assert(entries.drop_last()[i] == entries[i]);
        lemma_cell_state_of_newest(entries.drop_last(), i, resource, cell);
    }
}

/// Where the table gives one layout for every cell of a resource that is not
/// empty, that layout is the known layout of the resource.
pub proof fn lemma_layout_of_every_cell(
    entries: Seq<StateEntry>,
    resource: ResourceRef,
    layout: Layout,
)
    requires
        !resource.spec_is_empty(),
        uniformly_in(entries, resource, layout),
    ensures
        known_layout(entries, resource) == Some(layout),
{
    reveal(ResourceRef::spec_is_empty);
    let cell = choose|cell: Cell| resource.contains(cell);
    let chosen = choose|layout: Layout| uniformly_in(entries, resource, layout);
    assert(cell_layout(entries, cell) == Some(layout));
    assert(cell_layout(entries, cell) == Some(chosen));
}

/// A known layout is the layout of every cell of the resource.
pub proof fn lemma_known_layout_of_cell(
    entries: Seq<StateEntry>,
    resource: ResourceRef,
    cell: Cell,
)
    requires
        known_layout(entries, resource) is Some,
        resource.contains(cell),
    ensures
        cell_layout(entries, cell) == known_layout(entries, resource),
{
}

/// The layout of a resource is unknown if the table gives no layout for one of
/// its cells.
pub proof fn lemma_cell_without_layout(entries: Seq<StateEntry>, resource: ResourceRef, cell: Cell)
    requires
        resource.contains(cell),
        cell_layout(entries, cell) is None,
    ensures
        known_layout(entries, resource) is None,
{
}

/// The layout of a resource is unknown if the table gives different layouts
/// for two of its cells.
pub proof fn lemma_cells_in_two_layouts(
    entries: Seq<StateEntry>,
    resource: ResourceRef,
    first: Cell,
    second: Cell,
)
    requires
        resource.contains(first),
        resource.contains(second),
        cell_layout(entries, first) != cell_layout(entries, second),
    ensures
        known_layout(entries, resource) is None,
{
}

/// Dropping the lines that `resource` covers changes nothing for a cell
/// outside `resource`.
proof fn lemma_cell_state_without_covered(
    entries: Seq<StateEntry>,
    resource: ResourceRef,
    cell: Cell,
)
    requires
        !resource.contains(cell),
    ensures
        cell_state(without_covered(entries, resource), cell) == cell_state(entries, cell),
    decreases entries.len(),
{
    if entries.len() > 0 {
        let last = entries.last();
        let rest = without_covered(entries.drop_last(), resource);
        lemma_cell_state_without_covered(entries.drop_last(), resource, cell);
        if resource.spec_covers(last.resource) {
            if last.resource.contains(cell) {
                lemma_covered_cell(resource, last.resource, cell);
            }
        } else {
            assert(rest.push(last).drop_last() == rest);
        }
    }
}

/// Putting a resource in a state puts each of its cells in that state and
/// leaves every other cell as it was.
pub proof fn lemma_cell_state_of_recorded(
    entries: Seq<StateEntry>,
    resource: ResourceRef,
    state: ResourceState,
    cell: Cell,
)
    ensures
        cell_state(recorded(entries, resource, state), cell) == if resource.contains(cell) {
            Some(state)
        } else {
            cell_state(entries, cell)
        },
{
    let kept = without_covered(entries, resource);
    let entry = StateEntry { resource, state };
    assert(kept.push(entry).drop_last() == kept);
    if !resource.contains(cell) {
        lemma_cell_state_without_covered(entries, resource, cell);
    }
}

/// The table says nothing of a cell of a resource that no line touches.
pub proof fn lemma_cell_state_of_untouched(
    entries: Seq<StateEntry>,
    resource: ResourceRef,
    cell: Cell,
)
    requires
        untouched(entries, resource),
        resource.contains(cell),
    ensures
        cell_state(entries, cell) is None,
    decreases entries.len(),
{
    if entries.len() > 0 {
        let last = entries[entries.len() - 1];
        if last.resource.contains(cell) {
            lemma_common_cell(last.resource, resource, cell);
        }
        assert forall|i: int| 0 <= i < entries.drop_last().len() implies !(
        #[trigger] entries.drop_last()[i]).resource.spec_overlaps(resource) by {
            assert(entries.drop_last()[i] == entries[i]);
        }
        lemma_cell_state_of_untouched(entries.drop_last(), resource, cell);
    }
}

/// Right after a resource that is not empty was put in a state, the layout of
/// that state is the known layout of the resource.
pub proof fn lemma_known_layout_of_recorded(
    entries: Seq<StateEntry>,
    resource: ResourceRef,
    state: ResourceState,
)
    requires
        !resource.spec_is_empty(),
    ensures
        known_layout(recorded(entries, resource, state), resource) == state.layout,
{
    let after = recorded(entries, resource, state);
    assert forall|cell: Cell| resource.contains(cell) implies cell_layout(after, cell)
        == state.layout by {
        lemma_cell_state_of_recorded(entries, resource, state, cell);
    }
    match state.layout {
        Some(layout) => {
            lemma_layout_of_every_cell(after, resource, layout);
        },
        None => {
            reveal(ResourceRef::spec_is_empty);
            let cell = choose|cell: Cell| resource.contains(cell);
            lemma_cell_without_layout(after, resource, cell);
        },
    }
}

/// Nothing is known of the layout of a resource that no line touches.
pub proof fn lemma_known_layout_of_untouched(entries: Seq<StateEntry>, resource: ResourceRef)
    requires
        untouched(entries, resource),
    ensures
        known_layout(entries, resource) is None,
{
    if !resource.spec_is_empty() {
        reveal(ResourceRef::spec_is_empty);
        let cell = choose|cell: Cell| resource.contains(cell);
        lemma_cell_state_of_untouched(entries, resource, cell);
        lemma_cell_without_layout(entries, resource, cell);
    }
}

/// Dropping lines does not touch a resource that was untouched.
proof fn lemma_without_covered_untouched(
    entries: Seq<StateEntry>,
    resource: ResourceRef,
    other: ResourceRef,
)
    requires
        untouched(entries, other),
    ensures
        untouched(without_covered(entries, resource), other),
    decreases entries.len(),
{
    if entries.len() > 0 {
        assert forall|i: int| 0 <= i < entries.drop_last().len() implies !(
        #[trigger] entries.drop_last()[i]).resource.spec_overlaps(other) by {
            assert(entries.drop_last()[i] == entries[i]);
        }
        assert(!entries[entries.len() - 1].resource.spec_overlaps(other));
        lemma_without_covered_untouched(entries.drop_last(), resource, other);
    }
}

/// Putting a resource in a state changes nothing that is known of the layout
/// of a resource that has nothing in common with it. In particular the layout
/// of a resource that was untouched is still unknown.
pub proof fn lemma_known_layout_of_disjoint(
    entries: Seq<StateEntry>,
    resource: ResourceRef,
    state: ResourceState,
    other: ResourceRef,
)
    requires
        !resource.spec_overlaps(other),
    ensures
        known_layout(recorded(entries, resource, state), other) == known_layout(entries, other),
        untouched(entries, other) ==> untouched(recorded(entries, resource, state), other)
            && known_layout(recorded(entries, resource, state), other) is None,
{
    let after = recorded(entries, resource, state);
    assert forall|cell: Cell| other.contains(cell) implies cell_layout(after, cell) == cell_layout(
        entries,
        cell,
    ) by {
        if resource.contains(cell) {
            lemma_common_cell(resource, other, cell);
        }
        lemma_cell_state_of_recorded(entries, resource, state, cell);
    }
    match known_layout(entries, other) {
        Some(layout) => {
            assert(uniformly_in(after, other, layout));
            lemma_layout_of_every_cell(after, other, layout);
        },
        None => {
            if known_layout(after, other) is Some {
                let layout = known_layout(after, other)->0;
                assert(uniformly_in(entries, other, layout));
                lemma_layout_of_every_cell(entries, other, layout);
            }
        },
    }
    if untouched(entries, other) {
        lemma_without_covered_untouched(entries, resource, other);
        lemma_known_layout_of_untouched(entries, other);
    }
}

/// A resource that no line touches has no prior use: a new use of it waits for
/// the top of the pipe and has no access to see.
pub proof fn lemma_source_of_untouched(entries: Seq<StateEntry>, resource: ResourceRef)
    requires
        untouched(entries, resource),
    ensures
        prior_use(entries, resource) == ResourceState::spec_unused(),
        source_stages(entries, resource) == PipelineStages::spec_top_of_pipe(),
        source_access(entries, resource) == AccessFlagBits::spec_none(),
    decreases entries.len(),
{
    if entries.len() > 0 {
        assert forall|i: int| 0 <= i < entries.drop_last().len() implies !(
        #[trigger] entries.drop_last()[i]).resource.spec_overlaps(resource) by {
            assert(entries.drop_last()[i] == entries[i]);
        }
        assert(!entries[entries.len() - 1].resource.spec_overlaps(resource));
        lemma_source_of_untouched(entries.drop_last(), resource);
    }
}

/// Once a resource that was untouched, and is not empty, has been put in a
/// state, that state is its prior use: its stages and accesses are what the
/// next use of the resource waits for.
pub proof fn lemma_source_of_recorded(
    entries: Seq<StateEntry>,
    resource: ResourceRef,
    state: ResourceState,
)
    requires
        untouched(entries, resource),
        !resource.spec_is_empty(),
    ensures
        prior_use(recorded(entries, resource, state), resource).stages == state.stages,
        prior_use(recorded(entries, resource, state), resource).access == state.access,
{
    let kept = without_covered(entries, resource);
    let entry = StateEntry { resource, state };
    lemma_without_covered_untouched(entries, resource, resource);
    lemma_source_of_untouched(kept, resource);
    lemma_covers_itself(resource);
    assert(kept.push(entry).drop_last() == kept);
    lemma_stages_union_none(state.stages);
    lemma_access_union_none(state.access);
}

/// The prior use of a resource leaves out nothing that the table says of one
/// of its cells: a new use of the resource waits for the last use of each of
/// them.
pub proof fn lemma_prior_use_includes_cell(
    entries: Seq<StateEntry>,
    resource: ResourceRef,
    cell: Cell,
)
    requires
        resource.contains(cell),
        cell_state(entries, cell) is Some,
    ensures
        prior_use(entries, resource).stages.includes(cell_state(entries, cell)->0.stages),
        prior_use(entries, resource).access.includes(cell_state(entries, cell)->0.access),
    decreases entries.len(),
{
    let last = entries.last();
    let rest = prior_use(entries.drop_last(), resource);
    if last.resource.contains(cell) {
        lemma_common_cell(last.resource, resource, cell);
        lemma_stages_union_includes(rest.stages, last.state.stages, last.state.stages);
        lemma_access_union_includes(rest.access, last.state.access, last.state.access);
    } else {
        let state = cell_state(entries.drop_last(), cell)->0;
        lemma_prior_use_includes_cell(entries.drop_last(), resource, cell);
        lemma_stages_union_includes(rest.stages, last.state.stages, state.stages);
        lemma_access_union_includes(rest.access, last.state.access, state.access);
    }
}

} // verus!
