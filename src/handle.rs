use vstd::prelude::*;

verus! {

/// Tag bits that the allocator reserves for itself (bits 12 to 15).
pub const INTERNAL_TAG_MASK: u16 = 0xF000;

/// Tag bits that carry the caller's tag (bits 0 to 11).
pub const EXTERNAL_TAG_MASK: u16 = 0x0FFF;

/// Internal flag of a handle whose memory bypassed the arena.
pub const DEFAULT_ALLOC_BIT: u16 = 0x8000;

/// A device address together with its 16-bit tag.
#[derive(Clone, Copy, PartialEq, Eq, Structural, Debug)]
pub struct DevicePtr {
    pub ptr: u64,
    pub tag: u16,
}

/// The tag stored in a handle: the caller's tag with the internal range
/// cleared, and the direct-allocation flag set when `direct` holds.
pub open spec fn spec_compose_tag(external: u16, direct: bool) -> u16 {
    (external & EXTERNAL_TAG_MASK) | (if direct {
        DEFAULT_ALLOC_BIT
    } else {
        0u16
    })
}

/// A composed tag keeps the caller's external bits, whatever the caller put in
/// the internal range, and its internal range holds exactly the allocator's
/// flag: empty for arena memory, the direct-allocation bit otherwise.
pub proof fn lemma_tag_ranges(external: u16, direct: bool)
    ensures
        spec_compose_tag(external, direct) & EXTERNAL_TAG_MASK == external & EXTERNAL_TAG_MASK,
        spec_compose_tag(external, direct) & INTERNAL_TAG_MASK == (if direct {
            DEFAULT_ALLOC_BIT
        } else {
            0u16
        }),
        (spec_compose_tag(external, direct) & DEFAULT_ALLOC_BIT != 0) == direct,
{
    let flag: u16 = if direct {
        DEFAULT_ALLOC_BIT
    } else {
        0
    };
    assert(((external & 0x0FFFu16) | flag) & 0x0FFFu16 == external & 0x0FFFu16) by (bit_vector)
        requires
            flag == 0x8000u16 || flag == 0u16,
    ;
    assert(((external & 0x0FFFu16) | flag) & 0xF000u16 == flag) by (bit_vector)
        requires
            flag == 0x8000u16 || flag == 0u16,
    ;
    assert((((external & 0x0FFFu16) | flag) & 0x8000u16 != 0) == (flag == 0x8000u16))
        by (bit_vector)
        requires
            flag == 0x8000u16 || flag == 0u16,
    ;
}

/// Merges a caller's tag with the allocator's own flag; the only place where
/// the two ranges of a tag are combined.
pub fn compose_tag(external: u16, direct: bool) -> (r: u16)
    ensures
        r == spec_compose_tag(external, direct),
{
    let flag: u16 = if direct {
        DEFAULT_ALLOC_BIT
    } else {
        0
    };
    (external & EXTERNAL_TAG_MASK) | flag
}

impl DevicePtr {
    /// A handle with an empty tag.
    pub fn new(ptr: u64) -> (r: DevicePtr)
        ensures
            r == (DevicePtr { ptr, tag: 0 }),
    {
        DevicePtr { ptr, tag: 0 }
    }

    /// A handle carrying `tag` unchanged.
    pub fn with_tag(ptr: u64, tag: u16) -> (r: DevicePtr)
        ensures
            r == (DevicePtr { ptr, tag }),
    {
        DevicePtr { ptr, tag }
    }

    pub fn ptr(&self) -> (r: u64)
        ensures
            r == self.ptr,
    {
        self.ptr
    }

    pub fn tag(&self) -> (r: u16)
        ensures
            r == self.tag,
    {
        self.tag
    }

    /// Whether the handle's memory came straight from the device rather than
    /// from an arena block.
    pub fn is_direct(&self) -> (r: bool)
        ensures
            r == (self.tag & DEFAULT_ALLOC_BIT != 0),
    {
        self.tag & DEFAULT_ALLOC_BIT != 0
    }
}

} // verus!
