//! Buffers, images and references to parts of them.

use vstd::prelude::*;

verus! {

/// The layout that an image subresource is in at some point of a command stream.
#[derive(Clone, Copy, Debug, PartialEq, Eq, Structural)]
pub enum Layout {
    Undefined,
    General,
    ColorAttachmentOptimal,
    DepthStencilAttachmentOptimal,
    DepthStencilReadOnlyOptimal,
    ShaderReadOnlyOptimal,
    TransferSrcOptimal,
    TransferDstOptimal,
    Preinitialized,
    PresentSrc,
}

/// What recording needs to know of a buffer object.
#[derive(Clone, Copy, Debug, PartialEq, Eq, Structural)]
pub struct Buffer {
    /// Identity of the buffer object.
    pub id: u64,
    /// Whether the buffer may be the destination of a transfer.
    pub usage_transfer_dest: bool,
}

/// A range of bytes of a buffer.
#[derive(Clone, Copy, Debug, PartialEq, Eq, Structural)]
pub struct BufferSlice {
    pub buffer: Buffer,
    /// Offset of the first byte from the start of the buffer.
    pub offset: u64,
    /// Number of bytes.
    pub size: u64,
}

/// What recording needs to know of an image object.
#[derive(Clone, Copy, Debug, PartialEq, Eq, Structural)]
pub struct Image {
    /// Identity of the image object.
    pub id: u64,
}

/// The smallest unit of memory that synchronisation tells apart: one byte of a
/// buffer, or one mipmap level of one array layer of an image.
pub enum Cell {
    Byte { buffer: u64, index: int },
    Level { image: u64, mipmap: int, layer: int },
}

/// A byte range of a buffer, or a block of mipmap levels and array layers of an
/// image. Ranges are half open: `start` is in, `end` is out.
#[derive(Clone, Copy, Debug, PartialEq, Eq, Structural)]
pub enum ResourceRef {
    Buffer { buffer: u64, offset: u64, size: u64 },
    Image { image: u64, mipmaps_start: u32, mipmaps_end: u32, layers_start: u32, layers_end: u32 },
}

impl BufferSlice {
    /// The bytes that the slice names.
    pub open spec fn spec_resource(self) -> ResourceRef {
        ResourceRef::Buffer { buffer: self.buffer.id, offset: self.offset, size: self.size }
    }

    #[verifier::when_used_as_spec(spec_resource)]
    pub fn resource(self) -> (r: ResourceRef)
        ensures
            r == self.spec_resource(),
    {
        ResourceRef::Buffer { buffer: self.buffer.id, offset: self.offset, size: self.size }
    }
}

impl Image {
    /// The block of `self` made of the mipmap levels `mipmaps_start..mipmaps_end`
    /// of the array layers `layers_start..layers_end`.
    pub open spec fn spec_subresource(
        self,
        mipmaps_start: u32,
        mipmaps_end: u32,
        layers_start: u32,
        layers_end: u32,
    ) -> ResourceRef {
        ResourceRef::Image { image: self.id, mipmaps_start, mipmaps_end, layers_start, layers_end }
    }

    #[verifier::when_used_as_spec(spec_subresource)]
    pub fn subresource(
        self,
        mipmaps_start: u32,
        mipmaps_end: u32,
        layers_start: u32,
        layers_end: u32,
    ) -> (r: ResourceRef)
        ensures
            r == self.spec_subresource(mipmaps_start, mipmaps_end, layers_start, layers_end),
    {
        ResourceRef::Image { image: self.id, mipmaps_start, mipmaps_end, layers_start, layers_end }
    }
}

impl ResourceRef {
    /// Whether `cell` is part of what `self` names.
    pub open spec fn contains(self, cell: Cell) -> bool {
        match (self, cell) {
            (ResourceRef::Buffer { buffer, offset, size }, Cell::Byte { buffer: b, index }) => {
                b == buffer && offset <= index < offset + size
            },
            (
                ResourceRef::Image { image, mipmaps_start, mipmaps_end, layers_start, layers_end },
                Cell::Level { image: i, mipmap, layer },
            ) => {
                i == image && mipmaps_start <= mipmap < mipmaps_end && layers_start <= layer
                    < layers_end
            },
            _ => false,
        }
    }

    /// Whether `self` names nothing.
    #[verifier::opaque]
    pub open spec fn spec_is_empty(self) -> bool {
        forall|cell: Cell| !self.contains(cell)
    }

    /// Whether `self` and `other` have memory in common.
    #[verifier::opaque]
    pub open spec fn spec_overlaps(self, other: ResourceRef) -> bool {
        exists|cell: Cell| self.contains(cell) && other.contains(cell)
    }

    /// Whether all that `other` names is part of `self`.
    #[verifier::opaque]
    pub open spec fn spec_covers(self, other: ResourceRef) -> bool {
        forall|cell: Cell| other.contains(cell) ==> self.contains(cell)
    }

    /// Whether `self` is a block of an image.
    pub open spec fn spec_is_image(self) -> bool {
        self is Image
    }

    /// Whether the mipmap level `mipmap` of the array layer `layer` of the image
    /// `image` is part of what `self` names.
    pub fn holds_level(self, image: u64, mipmap: u32, layer: u32) -> (r: bool)
        ensures
            r == self.contains(Cell::Level { image, mipmap: mipmap as int, layer: layer as int }),
    {
        match self {
            ResourceRef::Image {
                image: i,
                mipmaps_start,
                mipmaps_end,
                layers_start,
                layers_end,
            } => {
                i == image && mipmaps_start <= mipmap && mipmap < mipmaps_end && layers_start
                    <= layer && layer < layers_end
            },
            ResourceRef::Buffer { .. } => false,
        }
    }

    #[verifier::when_used_as_spec(spec_is_image)]
    pub fn is_image(self) -> (r: bool)
        ensures
            r == self.spec_is_image(),
    {
        match self {
            ResourceRef::Image { .. } => true,
            ResourceRef::Buffer { .. } => false,
        }
    }

    #[verifier::when_used_as_spec(spec_is_empty)]
    pub fn is_empty(self) -> (r: bool)
        ensures
            r == self.spec_is_empty(),
    {
        reveal(ResourceRef::spec_is_empty);
        match self {
            ResourceRef::Buffer { buffer, offset, size } => {
                proof {
                    if size > 0 {
                        assert(self.contains(Cell::Byte { buffer, index: offset as int }));
                    }
                }
                size == 0
            },
            ResourceRef::Image { image, mipmaps_start, mipmaps_end, layers_start, layers_end } => {
                proof {
                    if mipmaps_start < mipmaps_end && layers_start < layers_end {
                        assert(self.contains(
                            Cell::Level {
                                image,
                                mipmap: mipmaps_start as int,
                                layer: layers_start as int,
                            },
                        ));
                    }
                }
                mipmaps_start >= mipmaps_end || layers_start >= layers_end
            },
        }
    }

    #[verifier::when_used_as_spec(spec_overlaps)]
    pub fn overlaps(self, other: ResourceRef) -> (r: bool)
        ensures
            r == self.spec_overlaps(other),
    {
        reveal(ResourceRef::spec_overlaps);
        match (self, other) {
            (
                ResourceRef::Buffer { buffer: b1, offset: o1, size: s1 },
                ResourceRef::Buffer { buffer: b2, offset: o2, size: s2 },
            ) => {
                let r = b1 == b2 && s1 > 0 && s2 > 0 && if o1 <= o2 {
                    o2 - o1 < s1
                } else {
                    o1 - o2 < s2
                };
                proof {
                    if r {
                        let index = if o1 <= o2 {
                            o2 as int
                        } else {
                            o1 as int
                        };
                        let cell = Cell::Byte { buffer: b1, index };
                        assert(self.contains(cell) && other.contains(cell));
                    }
                }
                r
            },
            (
                ResourceRef::Image {
                    image: i1,
                    mipmaps_start: m1,
                    mipmaps_end: n1,
                    layers_start: l1,
                    layers_end: k1,
                },
                ResourceRef::Image {
                    image: i2,
                    mipmaps_start: m2,
                    mipmaps_end: n2,
                    layers_start: l2,
                    layers_end: k2,
                },
            ) => {
                let m = if m1 <= m2 {
                    m2
                } else {
                    m1
                };
                let l = if l1 <= l2 {
                    l2
                } else {
                    l1
                };
                let r = i1 == i2 && m < n1 && m < n2 && l < k1 && l < k2;
                proof {
                    if r {
                        let cell = Cell::Level { image: i1, mipmap: m as int, layer: l as int };
                        assert(self.contains(cell) && other.contains(cell));
                    }
                }
                r
            },
            _ => false,
        }
    }

    #[verifier::when_used_as_spec(spec_covers)]
    pub fn covers(self, other: ResourceRef) -> (r: bool)
        ensures
            r == self.spec_covers(other),
    {
        reveal(ResourceRef::spec_is_empty);
        reveal(ResourceRef::spec_covers);
        if other.is_empty() {
            return true;
        }
        match (self, other) {
            (
                ResourceRef::Buffer { buffer: b1, offset: o1, size: s1 },
                ResourceRef::Buffer { buffer: b2, offset: o2, size: s2 },
            ) => {
                let r = b1 == b2 && o1 <= o2 && s2 <= s1 && o2 - o1 <= s1 - s2;
                proof {
                    let first = Cell::Byte { buffer: b2, index: o2 as int };
                    let last = Cell::Byte { buffer: b2, index: o2 + s2 - 1 };
                    assert(other.contains(first) && other.contains(last));
                }
                r
            },
            (
                ResourceRef::Image {
                    image: i1,
                    mipmaps_start: m1,
                    mipmaps_end: n1,
                    layers_start: l1,
                    layers_end: k1,
                },
                ResourceRef::Image {
                    image: i2,
                    mipmaps_start: m2,
                    mipmaps_end: n2,
                    layers_start: l2,
                    layers_end: k2,
                },
            ) => {
                let r = i1 == i2 && m1 <= m2 && n2 <= n1 && l1 <= l2 && k2 <= k1;
                proof {
                    let first = Cell::Level { image: i2, mipmap: m2 as int, layer: l2 as int };
                    let last = Cell::Level { image: i2, mipmap: n2 - 1, layer: k2 - 1 };
                    assert(other.contains(first) && other.contains(last));
                }
                r
            },
            (ResourceRef::Buffer { buffer, offset, size }, ResourceRef::Image { .. }) => {
                proof {
                    let cell = choose|cell: Cell| other.contains(cell);
                    assert(other.contains(cell) && !self.contains(cell));
                }
                false
            },
            (ResourceRef::Image { .. }, ResourceRef::Buffer { buffer, offset, size }) => {
                proof {
                    let cell = Cell::Byte { buffer, index: offset as int };
                    assert(other.contains(cell) && !self.contains(cell));
                }
                false
            },
        }
    }
}

/// Overlap does not depend on the order of the two.
pub proof fn lemma_overlaps_symmetric(a: ResourceRef, b: ResourceRef)
    ensures
        a.spec_overlaps(b) == b.spec_overlaps(a),
{
    reveal(ResourceRef::spec_overlaps);
    if a.spec_overlaps(b) {
        let cell = choose|cell: Cell| a.contains(cell) && b.contains(cell);
        assert(b.contains(cell) && a.contains(cell));
    }
    if b.spec_overlaps(a) {
        let cell = choose|cell: Cell| b.contains(cell) && a.contains(cell);
        assert(a.contains(cell) && b.contains(cell));
    }
}

/// A resource covers itself, and overlaps itself unless it is empty.
pub proof fn lemma_covers_itself(a: ResourceRef)
    ensures
        a.spec_covers(a),
        a.spec_overlaps(a) == !a.spec_is_empty(),
{
    reveal(ResourceRef::spec_overlaps);
    reveal(ResourceRef::spec_covers);
    reveal(ResourceRef::spec_is_empty);
    if !a.spec_is_empty() {
        let cell = choose|cell: Cell| a.contains(cell);
        assert(a.contains(cell) && a.contains(cell));
    }
}

/// What overlaps a part overlaps the whole.
pub proof fn lemma_overlaps_covered(whole: ResourceRef, part: ResourceRef, other: ResourceRef)
    requires
        whole.spec_covers(part),
        part.spec_overlaps(other),
    ensures
        whole.spec_overlaps(other),
{
    reveal(ResourceRef::spec_overlaps);
    reveal(ResourceRef::spec_covers);
    let cell = choose|cell: Cell| part.contains(cell) && other.contains(cell);
    assert(whole.contains(cell) && other.contains(cell));
}

/// A cell of both resources shows that they overlap.
pub proof fn lemma_common_cell(a: ResourceRef, b: ResourceRef, cell: Cell)
    requires
        a.contains(cell),
        b.contains(cell),
    ensures
        a.spec_overlaps(b),
        !a.spec_is_empty(),
{
    reveal(ResourceRef::spec_overlaps);
    reveal(ResourceRef::spec_is_empty);
}

/// A cell of the part is a cell of the whole.
pub proof fn lemma_covered_cell(whole: ResourceRef, part: ResourceRef, cell: Cell)
    requires
        whole.spec_covers(part),
        part.contains(cell),
    ensures
        whole.contains(cell),
{
    reveal(ResourceRef::spec_covers);
}

} // verus!
