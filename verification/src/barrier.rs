//! Barrier requests and the batch that collects them until they are emitted.

use vstd::prelude::*;
use crate::resource::{Layout, ResourceRef};
use crate::sync::{
    lemma_access_union_includes, lemma_access_union_none, lemma_stages_union_includes,
    lemma_stages_union_none, AccessFlagBits, PipelineStages,
};

verus! {

/// A request that the accesses named by the source half complete and become
/// visible before the accesses named by the destination half begin, for one
/// resource.
#[derive(Clone, Copy, Debug, PartialEq, Eq, Structural)]
pub struct BarrierRequest {
    pub resource: ResourceRef,
    /// Stages that must have completed.
    pub src_stages: PipelineStages,
    /// Accesses whose effects must have become visible.
    pub src_access: AccessFlagBits,
    /// Stages that must wait.
    pub dst_stages: PipelineStages,
    /// Accesses that must see the effects.
    pub dst_access: AccessFlagBits,
    /// Whether the dependency only holds within each framebuffer region.
    pub by_region: bool,
    /// The queue family that hands the resource over, if any does.
    pub queue_transfer_from: Option<u32>,
    /// The layout that an image is moved to, if it is moved.
    pub new_layout: Option<Layout>,
}

/// Whether two destination layouts cannot both be honoured: both are given and
/// they differ.
pub open spec fn layouts_conflict(a: Option<Layout>, b: Option<Layout>) -> bool {
    a is Some && b is Some && a != b
}

impl BarrierRequest {
    /// Whether the two requests cannot share a batch: their resources overlap
    /// and their destination layouts conflict.
    pub open spec fn spec_conflicts_with(self, other: BarrierRequest) -> bool {
        self.resource.spec_overlaps(other.resource) && layouts_conflict(
            self.new_layout,
            other.new_layout,
        )
    }

    #[verifier::when_used_as_spec(spec_conflicts_with)]
    pub fn conflicts_with(self, other: BarrierRequest) -> (r: bool)
        ensures
            r == self.spec_conflicts_with(other),
    {
        match (self.new_layout, other.new_layout) {
            (Some(a), Some(b)) => a != b && self.resource.overlaps(other.resource),
            _ => false,
        }
    }
}

/// Whether `request` conflicts with none of the requests of `batch`.
pub open spec fn accepts(batch: Seq<BarrierRequest>, request: BarrierRequest) -> bool {
    forall|i: int| 0 <= i < batch.len() ==> !(#[trigger] batch[i]).spec_conflicts_with(request)
}

/// Whether no two requests of `batch` conflict.
pub open spec fn compatible(batch: Seq<BarrierRequest>) -> bool {
    forall|i: int, j: int|
        0 <= i < j < batch.len() ==> !(#[trigger] batch[i]).spec_conflicts_with(#[trigger] batch[j])
}

/// What one pipeline barrier orders, whatever resources it names: the stages
/// and accesses on both sides of it.
#[derive(Clone, Copy, Debug, PartialEq, Eq, Structural)]
pub struct BarrierScope {
    pub src_stages: PipelineStages,
    pub src_access: AccessFlagBits,
    pub dst_stages: PipelineStages,
    pub dst_access: AccessFlagBits,
    /// Whether every dependency of the barrier is local to a framebuffer region.
    pub by_region: bool,
}

impl BarrierScope {
    /// The scope of a barrier that orders nothing.
    pub open spec fn spec_empty() -> BarrierScope {
        BarrierScope {
            src_stages: PipelineStages::spec_none(),
            src_access: AccessFlagBits::spec_none(),
            dst_stages: PipelineStages::spec_none(),
            dst_access: AccessFlagBits::spec_none(),
            by_region: true,
        }
    }

    /// The scope widened by one more request: each set is united with the
    /// request's, and the barrier stays local to a region only if the request is.
    pub open spec fn spec_with(self, request: BarrierRequest) -> BarrierScope {
        BarrierScope {
            src_stages: self.src_stages.spec_union(request.src_stages),
            src_access: self.src_access.spec_union(request.src_access),
            dst_stages: self.dst_stages.spec_union(request.dst_stages),
            dst_access: self.dst_access.spec_union(request.dst_access),
            by_region: self.by_region && request.by_region,
        }
    }

    #[verifier::when_used_as_spec(spec_empty)]
    pub fn empty() -> (r: BarrierScope)
        ensures
            r == Self::spec_empty(),
    {
        BarrierScope {
            src_stages: PipelineStages::none(),
            src_access: AccessFlagBits::none(),
            dst_stages: PipelineStages::none(),
            dst_access: AccessFlagBits::none(),
            by_region: true,
        }
    }

    #[verifier::when_used_as_spec(spec_with)]
    pub fn with(self, request: BarrierRequest) -> (r: BarrierScope)
        ensures
            r == self.spec_with(request),
    {
        BarrierScope {
            src_stages: self.src_stages.union(request.src_stages),
            src_access: self.src_access.union(request.src_access),
            dst_stages: self.dst_stages.union(request.dst_stages),
            dst_access: self.dst_access.union(request.dst_access),
            by_region: self.by_region && request.by_region,
        }
    }
}

/// The scope of the one pipeline barrier that carries all of `batch`.
pub open spec fn merged(batch: Seq<BarrierRequest>) -> BarrierScope
    decreases batch.len(),
{
    if batch.len() == 0 {
        BarrierScope::spec_empty()
    } else {
        merged(batch.drop_last()).spec_with(batch.last())
    }
}

/// The batch that results when `request` arrives while `batch` is pending:
/// `request` joins the batch if the batch accepts it, and starts a new one if
/// not.
pub open spec fn batch_after(batch: Seq<BarrierRequest>, request: BarrierRequest) -> Seq<
    BarrierRequest,
> {
    if accepts(batch, request) {
        batch.push(request)
    } else {
        seq![request]
    }
}

/// The requests that wait to be emitted as one pipeline barrier, oldest first.
/// No two of them conflict.
#[derive(Debug, PartialEq, Eq)]
pub struct PipelineBarrierBuilder {
    requests: Vec<BarrierRequest>,
}

impl View for PipelineBarrierBuilder {
    type V = Seq<BarrierRequest>;

    closed spec fn view(&self) -> Seq<BarrierRequest> {
        self.requests@
    }
}

impl PipelineBarrierBuilder {
    #[verifier::type_invariant]
    spec fn inv(self) -> bool {
        compatible(self.requests@)
    }

    /// An empty batch.
    pub fn new() -> (r: PipelineBarrierBuilder)
        ensures
            r@ == Seq::<BarrierRequest>::empty(),
    {
        PipelineBarrierBuilder { requests: Vec::new() }
    }

    /// Whether nothing waits to be emitted.
    pub fn is_empty(&self) -> (r: bool)
        ensures
            r == (self@.len() == 0),
    {
        self.requests.len() == 0
    }

    /// The requests of the batch, oldest first.
    pub fn requests(&self) -> (r: &Vec<BarrierRequest>)
        ensures
            r@ == self@,
            compatible(self@),
    {
        proof {
            use_type_invariant(self);
        }
        &self.requests
    }

    /// Whether `request` can join the batch.
    pub fn accepts(&self, request: BarrierRequest) -> (r: bool)
        ensures
            r == accepts(self@, request),
    {
        let mut i: usize = 0;
        while i < self.requests.len()
            invariant
                i <= self.requests@.len(),
                forall|k: int|
                    0 <= k < i ==> !(#[trigger] self.requests@[k]).spec_conflicts_with(request),
            decreases self.requests@.len() - i,
        {
            if self.requests[i].conflicts_with(request) {
                return false;
            }
            i += 1;
        }
        true
    }

    /// The scope of the pipeline barrier that the batch amounts to.
    pub fn scope(&self) -> (r: BarrierScope)
        ensures
            r == merged(self@),
    {
        let mut scope = BarrierScope::empty();
        let mut i: usize = 0;
        while i < self.requests.len()
            invariant
                i <= self.requests@.len(),
                scope == merged(self.requests@.take(i as int)),
            decreases self.requests@.len() - i,
        {
            proof {
                assert(self.requests@.take(i + 1).drop_last() == self.requests@.take(i as int));
            }
            scope = scope.with(self.requests[i]);
            i += 1;
        }
        proof {
            assert(self.requests@.take(i as int) == self.requests@);
        }
        scope
    }

    /// Lets `request` join the batch if the batch accepts it, and says whether
    /// it did. A request that is turned away leaves the batch as it was.
    pub fn merge(&mut self, request: BarrierRequest) -> (r: bool)
        ensures
            r == accepts(old(self)@, request),
            r ==> final(self)@ == old(self)@.push(request),
            !r ==> final(self)@ == old(self)@,
            compatible(final(self)@),
    {
        proof {
            use_type_invariant(&*self);
        }
        if !self.accepts(request) {
            return false;
        }
        let mut requests: Vec<BarrierRequest> = Vec::new();
        core::mem::swap(&mut self.requests, &mut requests);
        requests.push(request);
        core::mem::swap(&mut self.requests, &mut requests);
        true
    }

    /// Empties the batch and hands out what it held.
    pub fn take(&mut self) -> (r: PipelineBarrierBuilder)
        ensures
            r@ == old(self)@,
            final(self)@ == Seq::<BarrierRequest>::empty(),
    {
        proof {
            use_type_invariant(&*self);
        }
        let mut requests: Vec<BarrierRequest> = Vec::new();
        core::mem::swap(&mut self.requests, &mut requests);
        PipelineBarrierBuilder { requests }
    }
}

/// A batch that holds no conflict still holds none after a request arrives,
/// whether the request joined it or replaced it.
pub proof fn lemma_batch_after_compatible(batch: Seq<BarrierRequest>, request: BarrierRequest)
    requires
        compatible(batch),
    ensures
        compatible(batch_after(batch, request)),
{
}

/// The scope of a batch that has just grown by one request is the scope it had,
/// united with that of the request.
pub proof fn lemma_merged_push(batch: Seq<BarrierRequest>, request: BarrierRequest)
    ensures
        merged(batch.push(request)) == merged(batch).spec_with(request),
{
    assert(batch.push(request).drop_last() == batch);
}

/// A request that the batch accepts joins it, and the scope of the batch grows
/// by that of the request.
pub proof fn lemma_accepted_request_joins(batch: Seq<BarrierRequest>, request: BarrierRequest)
    requires
        accepts(batch, request),
    ensures
        batch_after(batch, request) == batch.push(request),
        merged(batch_after(batch, request)) == merged(batch).spec_with(request),
{
    lemma_merged_push(batch, request);
}

/// The scope of a barrier for two requests: each set is the union of the sets
/// of the two.
pub open spec fn scope_of_two(first: BarrierRequest, second: BarrierRequest) -> BarrierScope {
    BarrierScope {
        src_stages: first.src_stages.spec_union(second.src_stages),
        src_access: first.src_access.spec_union(second.src_access),
        dst_stages: first.dst_stages.spec_union(second.dst_stages),
        dst_access: first.dst_access.spec_union(second.dst_access),
        by_region: first.by_region && second.by_region,
    }
}

proof fn lemma_scope_of_two(first: BarrierRequest, second: BarrierRequest)
    ensures
        BarrierScope::spec_empty().spec_with(first).spec_with(second) == scope_of_two(
            first,
            second,
        ),
{
    lemma_stages_union_none(first.src_stages);
    lemma_stages_union_none(first.dst_stages);
    lemma_access_union_none(first.src_access);
    lemma_access_union_none(first.dst_access);
}

/// The scope of a batch of two requests.
pub proof fn lemma_merged_two(first: BarrierRequest, second: BarrierRequest)
    ensures
        merged(seq![first, second]) == scope_of_two(first, second),
{
    let none = Seq::<BarrierRequest>::empty();
    assert(none.push(first).push(second) =~= seq![first, second]);
    assert(merged(none) == BarrierScope::spec_empty());
    lemma_merged_push(none, first);
    lemma_merged_push(none.push(first), second);
    lemma_scope_of_two(first, second);
}

/// Two requests for resources that have nothing in common never conflict, so
/// the second joins whatever batch the first is in. Where they reach an empty
/// batch, the batch then holds the two, and each set of its scope is the union
/// of the sets of the two.
pub proof fn lemma_disjoint_requests_merge(first: BarrierRequest, second: BarrierRequest)
    requires
        !first.resource.spec_overlaps(second.resource),
    ensures
        !first.spec_conflicts_with(second),
        batch_after(batch_after(Seq::empty(), first), second) == seq![first, second],
        merged(seq![first, second]) == scope_of_two(first, second),
{
    let none = Seq::<BarrierRequest>::empty();
    assert(accepts(none, first));
    assert(accepts(none.push(first), second));
    assert(none.push(first).push(second) =~= seq![first, second]);
    lemma_merged_two(first, second);
}

/// The same for a batch that already holds requests, as long as it accepts
/// both: the two join it, in their order, and the scope of the batch grows by
/// the union of the two.
pub proof fn lemma_disjoint_requests_join(
    batch: Seq<BarrierRequest>,
    first: BarrierRequest,
    second: BarrierRequest,
)
    requires
        !first.resource.spec_overlaps(second.resource),
        accepts(batch, first),
        accepts(batch, second),
    ensures
        batch_after(batch_after(batch, first), second) == batch.push(first).push(second),
        merged(batch.push(first).push(second)) == merged(batch).spec_with(first).spec_with(second),
{
    assert(accepts(batch.push(first), second));
    lemma_merged_push(batch, first);
    lemma_merged_push(batch.push(first), second);
}

/// The scope of a batch leaves out nothing of any of its requests: it includes
/// the sets of each of them, and it is local to a region only if each of them
/// is.
pub proof fn lemma_merged_includes_each(batch: Seq<BarrierRequest>, i: int)
    requires
        0 <= i < batch.len(),
    ensures
        merged(batch).src_stages.includes(batch[i].src_stages),
        merged(batch).src_access.includes(batch[i].src_access),
        merged(batch).dst_stages.includes(batch[i].dst_stages),
        merged(batch).dst_access.includes(batch[i].dst_access),
        merged(batch).by_region ==> batch[i].by_region,
    decreases batch.len(),
{
    let rest = merged(batch.drop_last());
    let last = batch.last();
    if i < batch.len() - 1 {
        let request = batch.drop_last()[i];
        lemma_merged_includes_each(batch.drop_last(), i);
        lemma_stages_union_includes(rest.src_stages, last.src_stages, request.src_stages);
        lemma_access_union_includes(rest.src_access, last.src_access, request.src_access);
        lemma_stages_union_includes(rest.dst_stages, last.dst_stages, request.dst_stages);
        lemma_access_union_includes(rest.dst_access, last.dst_access, request.dst_access);
    } else {
        lemma_stages_union_includes(rest.src_stages, last.src_stages, last.src_stages);
        lemma_access_union_includes(rest.src_access, last.src_access, last.src_access);
        lemma_stages_union_includes(rest.dst_stages, last.dst_stages, last.dst_stages);
        lemma_access_union_includes(rest.dst_access, last.dst_access, last.dst_access);
    }
}

} // verus!
