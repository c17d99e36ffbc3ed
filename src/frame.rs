use vstd::prelude::*;
use vstd::arithmetic::power2::{lemma2_to64, lemma_pow2_unfold, pow2};
use crate::align::{
    align_up, is_valid_align, lemma_rounded_up, lemma_valid_align_is_pow2, rounded_up,
    MAX_ALIGNMENT,
    PITCH_ALIGNMENT,
};
use crate::handle::{
    compose_tag, lemma_tag_ranges, spec_compose_tag, DevicePtr, DEFAULT_ALLOC_BIT,
    EXTERNAL_TAG_MASK, INTERNAL_TAG_MASK,
};
use crate::layout::Layout;

verus! {

/// What a frame allocator holds, as plain values.
pub struct FrameState {
    /// Bases of the blocks given up so far, oldest first.
    pub old_blocks: Seq<u64>,
    /// Base of the active block.
    pub block: u64,
    /// Size of the active block.
    pub block_size: usize,
    /// Requests of at least this many bytes bypass the arena.
    pub max_size: usize,
    /// Bump cursor inside the active block.
    pub current_ptr: u64,
    /// End of the active block.
    pub current_end: u64,
    /// Requests served from the arena so far.
    pub num_allocs: usize,
    /// Bytes requested from the arena so far.
    pub total_allocated: usize,
}

/// What a request needs in order to finish.
#[derive(Clone, Copy, Debug)]
pub enum Plan {
    /// Served from the active block.
    Ready(DevicePtr),
    /// The active block cannot hold the request: a fresh block of `block_size`
    /// bytes is needed; its base goes to `alloc_from_new_block` with the same
    /// size, alignment and tag.
    NewBlock { size: usize, align: usize, block_size: usize },
    /// The request is at or above the threshold: exactly `size` bytes come
    /// straight from the device, and `direct_handle` wraps their base.
    Direct { size: usize },
}

/// Size of the block that follows one of `block_size` bytes when a request of
/// `size` bytes does not fit: doubled until it holds the request.
pub open spec fn grown_size(block_size: nat, size: nat) -> nat
    decreases (if block_size < size {
        size - block_size
    } else {
        0
    }),
{
    if block_size == 0 || block_size >= size {
        block_size
    } else {
        grown_size(2 * block_size, size)
    }
}

proof fn lemma_grown_size_bounds(block_size: nat, size: nat)
    requires
        block_size > 0,
    ensures
        grown_size(block_size, size) >= block_size,
        grown_size(block_size, size) >= size,
    decreases (if block_size < size {
        size - block_size
    } else {
        0
    }),
{
    if block_size < size {
        lemma_grown_size_bounds(2 * block_size, size);
    }
}

/// A grown block is the smallest power-of-two multiple of the old block size
/// that holds the request.
pub proof fn lemma_grown_size_is_smallest_doubling(block_size: nat, size: nat) -> (k: nat)
    requires
        block_size > 0,
    ensures
        grown_size(block_size, size) == block_size * pow2(k),
        grown_size(block_size, size) >= size,
        forall|j: nat| j < k ==> #[trigger] (block_size * pow2(j)) < size,
    decreases (if block_size < size {
        size - block_size
    } else {
        0
    }),
{
    lemma_grown_size_bounds(block_size, size);
    if block_size >= size {
        lemma2_to64();
        0
    } else {
        let k0 = lemma_grown_size_is_smallest_doubling(2 * block_size, size);
        let k = k0 + 1;
        lemma_pow2_unfold(k);
        assert(block_size * pow2(k) == 2 * block_size * pow2(k0)) by (nonlinear_arith)
            requires
                pow2(k) == 2 * pow2(k0),
        ;
        assert forall|j: nat| j < k implies #[trigger] (block_size * pow2(j)) < size by {
            if j == 0 {
                lemma2_to64();
            } else {
                let i = (j - 1) as nat;
                lemma_pow2_unfold(j);
                assert(block_size * pow2(j) == 2 * block_size * pow2(i)) by (nonlinear_arith)
                    requires
                        pow2(j) == 2 * pow2(i),
                ;
                assert(2 * block_size * pow2(i) < size);
            }
        }
        k
    }
}

/// The counters move only for requests served from the arena: one more
/// request, and its size more bytes. A request that needs the device leaves
/// them as they were, so one that the device then refuses is never counted.
pub proof fn lemma_counters_follow_served_requests(
    s: FrameState,
    size: usize,
    align: usize,
    tag: u16,
)
    requires
        s.num_allocs < usize::MAX,
        s.total_allocated + size <= usize::MAX,
    ensures
        ({
            let (plan, next) = s.step(size, align, tag);
            &&& plan is Ready ==> next.num_allocs == s.num_allocs + 1 && next.total_allocated
                == s.total_allocated + size
            &&& !(plan is Ready) ==> next.num_allocs == s.num_allocs && next.total_allocated
                == s.total_allocated
        }),
        forall|block: u64|
            #![auto]
            s.regrown(block, size).num_allocs == s.num_allocs + 1 && s.regrown(
                block,
                size,
            ).total_allocated == s.total_allocated + size,
{
}

proof fn lemma_block_aligned(base: int, align: int)
    requires
        base % (MAX_ALIGNMENT as int) == 0,
        is_valid_align(align),
    ensures
        base % align == 0,
        rounded_up(base, align) == base,
{
    assert(align * (512int / align) == 512) by (nonlinear_arith)
        requires
            is_valid_align(align),
    ;
    vstd::arithmetic::div_mod::lemma_mod_mod(base, align, 512int / align);
}

impl FrameState {
    /// The active block is aligned to `MAX_ALIGNMENT`, is not empty, and the
    /// cursor lies inside it.
    pub open spec fn wf(self) -> bool {
        &&& self.block as int % MAX_ALIGNMENT as int == 0
        &&& self.block_size > 0
        &&& self.current_end == self.block + self.block_size
        &&& self.block <= self.current_ptr <= self.current_end
    }

    /// The request fits behind the cursor of the active block.
    pub open spec fn fits(self, size: int, align: int) -> bool {
        rounded_up(self.current_ptr as int, align) + size <= self.current_end
    }

    /// A request of `size` bytes served at `at`: the cursor moves past it and
    /// both counters grow.
    pub open spec fn bumped(self, at: int, size: int) -> FrameState {
        FrameState {
            current_ptr: (at + size) as u64,
            num_allocs: (self.num_allocs + 1) as usize,
            total_allocated: (self.total_allocated + size) as usize,
            ..self
        }
    }

    /// The decision for a request, and the state after it. A request that
    /// needs the device leaves the state as it was.
    pub open spec fn step(self, size: usize, align: usize, tag: u16) -> (Plan, FrameState) {
        if size >= self.max_size {
            (Plan::Direct { size }, self)
        } else if self.fits(size as int, align as int) {
            let at = rounded_up(self.current_ptr as int, align as int);
            (
                Plan::Ready(DevicePtr { ptr: at as u64, tag: spec_compose_tag(tag, false) }),
                self.bumped(at, size as int),
            )
        } else {
            (
                Plan::NewBlock {
                    size,
                    align,
                    block_size: grown_size(self.block_size as nat, size as nat) as usize,
                },
                self,
            )
        }
    }

    /// The state after a fresh block at `block` took over from the active one
    /// and served a request of `size` bytes at its base.
    pub open spec fn regrown(self, block: u64, size: usize) -> FrameState {
        let block_size = grown_size(self.block_size as nat, size as nat) as usize;
        FrameState {
            old_blocks: self.old_blocks.push(self.block),
            block,
            block_size,
            max_size: self.max_size,
            current_ptr: (block + size) as u64,
            current_end: (block + block_size) as u64,
            num_allocs: (self.num_allocs + 1) as usize,
            total_allocated: (self.total_allocated + size) as usize,
        }
    }
}

/// A request served from the arena lands at a multiple of its alignment,
/// inside the block that is active afterwards: the old block when it fits
/// there, else the fresh block that took over.
pub proof fn lemma_served_address_in_block(
    s: FrameState,
    size: usize,
    align: usize,
    tag: u16,
    block: u64,
)
    requires
        s.wf(),
        is_valid_align(align as int),
        size < s.max_size,
    ensures
        s.step(size, align, tag).0 matches Plan::Ready(h) ==> {
            let next = s.step(size, align, tag).1;
            &&& h.ptr as int % align as int == 0
            &&& next.block <= h.ptr
            &&& h.ptr + size <= next.block + next.block_size
        },
        !s.fits(size as int, align as int) && block as int % MAX_ALIGNMENT as int == 0 && block
            + grown_size(s.block_size as nat, size as nat) <= u64::MAX && grown_size(
            s.block_size as nat,
            size as nat,
        ) <= usize::MAX ==> {
            let next = s.regrown(block, size);
            &&& block as int % align as int == 0
            &&& next.block == block
            &&& block + size <= next.block + next.block_size
        },
{
    lemma_rounded_up(s.current_ptr as int, align as int);
    if block as int % MAX_ALIGNMENT as int == 0 {
        lemma_block_aligned(block as int, align as int);
    }
    lemma_grown_size_bounds(s.block_size as nat, size as nat);
}

/// When a fresh block takes over, the old block's base is the last entry of
/// the record of retired blocks, and the fresh block is the smallest
/// power-of-two multiple of the old size that holds the request.
pub proof fn lemma_growth_retires_and_doubles(s: FrameState, block: u64, size: usize) -> (k: nat)
    requires
        s.block_size > 0,
        grown_size(s.block_size as nat, size as nat) <= usize::MAX,
    ensures
        s.regrown(block, size).old_blocks == s.old_blocks.push(s.block),
        s.regrown(block, size).old_blocks.last() == s.block,
        s.regrown(block, size).block_size == (s.block_size as nat) * pow2(k),
        s.regrown(block, size).block_size >= size,
        forall|j: nat| j < k ==> #[trigger] ((s.block_size as nat) * pow2(j)) < size,
{
    lemma_grown_size_is_smallest_doubling(s.block_size as nat, size as nat)
}

/// A handle for arena memory carries the caller's external tag bits, with the
/// internal range cleared whatever the caller put there.
pub proof fn lemma_arena_handles_mask_tag(s: FrameState, size: usize, align: usize, tag: u16)
    ensures
        s.step(size, align, tag).0 matches Plan::Ready(h) ==> h.tag & EXTERNAL_TAG_MASK == tag
            & EXTERNAL_TAG_MASK && h.tag & INTERNAL_TAG_MASK == 0,
        spec_compose_tag(tag, false) & EXTERNAL_TAG_MASK == tag & EXTERNAL_TAG_MASK,
        spec_compose_tag(tag, false) & INTERNAL_TAG_MASK == 0,
{
    lemma_tag_ranges(tag, false);
}

/// A request at or above the threshold goes to the device for exactly its
/// size and touches no state; its handle has the direct-allocation flag set
/// beside the caller's external tag bits.
pub proof fn lemma_large_requests_bypass_arena(s: FrameState, size: usize, align: usize, tag: u16)
    requires
        size >= s.max_size,
    ensures
        s.step(size, align, tag) == (Plan::Direct { size }, s),
        spec_compose_tag(tag, true) & DEFAULT_ALLOC_BIT != 0,
        spec_compose_tag(tag, true) & EXTERNAL_TAG_MASK == tag & EXTERNAL_TAG_MASK,
{
    lemma_tag_ranges(tag, true);
}

/// One request of a series: its size, alignment and tag, and the base of the
/// block the device handed out when the request asked for one (`None` where
/// the device refused, or was not asked).
pub type Request = (usize, usize, u16, Option<u64>);

/// The state after a series of requests, starting from `s`.
pub open spec fn run(s: FrameState, reqs: Seq<Request>) -> FrameState
    decreases reqs.len(),
{
    if reqs.len() == 0 {
        s
    } else {
        let prev = run(s, reqs.drop_last());
        let (size, align, tag, block) = reqs.last();
        let (plan, next) = prev.step(size, align, tag);
        match (plan, block) {
            (Plan::NewBlock { .. }, Some(b)) => prev.regrown(b, size),
            _ => next,
        }
    }
}

/// Sizes of the requests of a series that the arena served: those below the
/// threshold that fit in the active block or got a fresh one.
pub open spec fn served_sizes(s: FrameState, reqs: Seq<Request>) -> Seq<usize>
    decreases reqs.len(),
{
    if reqs.len() == 0 {
        Seq::empty()
    } else {
        let prev = run(s, reqs.drop_last());
        let (size, align, tag, block) = reqs.last();
        let earlier = served_sizes(s, reqs.drop_last());
        if size < prev.max_size && (prev.fits(size as int, align as int) || block is Some) {
            earlier.push(size)
        } else {
            earlier
        }
    }
}

pub open spec fn sum_sizes(xs: Seq<usize>) -> int
    decreases xs.len(),
{
    if xs.len() == 0 {
        0
    } else {
        sum_sizes(xs.drop_last()) + xs.last()
    }
}

/// Sizes of all the requests of a series.
pub open spec fn request_sizes(reqs: Seq<Request>) -> Seq<usize> {
    reqs.map_values(|r: Request| r.0)
}

proof fn lemma_run_counts(s: FrameState, reqs: Seq<Request>)
    requires
        s.num_allocs + reqs.len() <= usize::MAX,
        s.total_allocated + sum_sizes(request_sizes(reqs)) <= usize::MAX,
    ensures
        run(s, reqs).num_allocs == s.num_allocs + served_sizes(s, reqs).len(),
        run(s, reqs).total_allocated == s.total_allocated + sum_sizes(served_sizes(s, reqs)),
        served_sizes(s, reqs).len() <= reqs.len(),
        0 <= sum_sizes(served_sizes(s, reqs)) <= sum_sizes(request_sizes(reqs)),
    decreases reqs.len(),
{
    if reqs.len() > 0 {
        let init = reqs.drop_last();
        let all = request_sizes(reqs);
        assert(request_sizes(init) =~= all.drop_last());
        assert(all.last() == reqs.last().0);
        assert(sum_sizes(all) == sum_sizes(request_sizes(init)) + reqs.last().0);
        lemma_run_counts(s, init);
        let earlier = served_sizes(s, init);
        let pushed = earlier.push(reqs.last().0);
        assert(pushed.drop_last() =~= earlier);
        assert(sum_sizes(pushed) == sum_sizes(earlier) + reqs.last().0);
    }
}

/// After any series of requests, `report` gives the number of requests that
/// the arena served and the sum of their sizes on top of where the counters
/// stood: requests that went to the device, or whose fresh block the device
/// refused, are not counted.
pub proof fn lemma_report_counts_served_requests(s: FrameState, reqs: Seq<Request>)
    requires
        s.num_allocs + reqs.len() <= usize::MAX,
        s.total_allocated + sum_sizes(request_sizes(reqs)) <= usize::MAX,
    ensures
        run(s, reqs).num_allocs == s.num_allocs + served_sizes(s, reqs).len(),
        run(s, reqs).total_allocated == s.total_allocated + sum_sizes(served_sizes(s, reqs)),
{
    lemma_run_counts(s, reqs);
}

/// A bump allocator over a chain of device blocks. Requests below `max_size`
/// are carved from the active block; when it runs out, a larger block takes
/// over and the old one is kept on record, never reused. Device memory is
/// never given back: dropping the allocator leaks every block on purpose,
/// since the device context that owns them reclaims them in bulk.
pub struct DeviceFrameAllocator {
    old_blocks: Vec<u64>,
    block: u64,
    block_size: usize,
    max_size: usize,
    current_ptr: u64,
    current_end: u64,
    num_allocs: usize,
    total_allocated: usize,
}

impl View for DeviceFrameAllocator {
    type V = FrameState;

    closed spec fn view(&self) -> FrameState {
        FrameState {
            old_blocks: self.old_blocks@,
            block: self.block,
            block_size: self.block_size,
            max_size: self.max_size,
            current_ptr: self.current_ptr,
            current_end: self.current_end,
            num_allocs: self.num_allocs,
            total_allocated: self.total_allocated,
        }
    }
}

impl DeviceFrameAllocator {
    /// The active block is aligned to `MAX_ALIGNMENT`, is not empty, and the
    /// cursor lies inside it.
    pub open spec fn wf(&self) -> bool {
        self@.wf()
    }

    /// A request of `size` bytes at `align` stays clear of integer overflow:
    /// the cursor can move past it, the counters can grow, and a grown block's
    /// size fits in `usize`.
    pub open spec fn admits(&self, size: int, align: int) -> bool {
        let s = self@;
        size < s.max_size ==> {
            &&& s.current_ptr + size + align <= u64::MAX
            &&& s.num_allocs < usize::MAX
            &&& s.total_allocated + size <= usize::MAX
            &&& grown_size(s.block_size as nat, size as nat) <= usize::MAX
        }
    }

    /// Whether a request of `size` bytes at `align` stays clear of integer
    /// overflow here, as `admits` says.
    pub fn can_serve(&self, size: usize, align: usize) -> (r: bool)
        requires
            self.wf(),
        ensures
            r == self.admits(size as int, align as int),
    {
        if size >= self.max_size {
            return true;
        }
        if size as u128 + align as u128 > (u64::MAX - self.current_ptr) as u128 {
            return false;
        }
        if self.num_allocs == usize::MAX || size > usize::MAX - self.total_allocated {
            return false;
        }
        let mut block_size = self.block_size;
        while block_size < size
            invariant
                block_size > 0,
                grown_size(block_size as nat, size as nat) == grown_size(
                    self@.block_size as nat,
                    size as nat,
                ),
                size < self@.max_size,
                self@.current_ptr + size + align <= u64::MAX,
                self@.num_allocs < usize::MAX,
                self@.total_allocated + size <= usize::MAX,
            decreases (if block_size < size {
                size - block_size
            } else {
                0
            }),
        {
            proof {
                lemma_grown_size_bounds(2 * block_size as nat, size as nat);
                assert(grown_size(block_size as nat, size as nat) == grown_size(
                    2 * block_size as nat,
                    size as nat,
                ));
            }
            if block_size > usize::MAX / 2 {
                return false;
            }
            block_size = block_size * 2;
        }
        true
    }

    /// Size of the first block for a requested `block_size`: rounded up to
    /// `MAX_ALIGNMENT`.
    pub fn block_size_for(block_size: usize) -> (r: usize)
        requires
            block_size + MAX_ALIGNMENT - 1 <= usize::MAX,
        ensures
            r == rounded_up(block_size as int, MAX_ALIGNMENT as int),
    {
        proof {
            lemma_valid_align_is_pow2(MAX_ALIGNMENT as int);
        }
        align_up(block_size as u64, MAX_ALIGNMENT) as usize
    }

    /// An allocator whose first block, of `block_size_for(block_size)` bytes,
    /// starts at `block`.
    pub fn new(block_size: usize, max_size: usize, block: u64) -> (r: Self)
        requires
            0 < block_size,
            block_size + MAX_ALIGNMENT - 1 <= usize::MAX,
            block as int % MAX_ALIGNMENT as int == 0,
            block + rounded_up(block_size as int, MAX_ALIGNMENT as int) <= u64::MAX,
        ensures
            r.wf(),
            r@ == (FrameState {
                old_blocks: Seq::empty(),
                block,
                block_size: rounded_up(block_size as int, MAX_ALIGNMENT as int) as usize,
                max_size,
                current_ptr: block,
                current_end: (block + rounded_up(block_size as int, MAX_ALIGNMENT as int)) as u64,
                num_allocs: 0,
                total_allocated: 0,
            }),
    {
        let block_size = Self::block_size_for(block_size);
        DeviceFrameAllocator {
            old_blocks: Vec::new(),
            block,
            block_size,
            max_size,
            current_ptr: block,
            current_end: block + block_size as u64,
            num_allocs: 0,
            total_allocated: 0,
        }
    }

    /// Serves a request from the active block when it fits there; otherwise
    /// returns `None` and changes nothing.
    fn alloc_impl(&mut self, size: usize, align: usize) -> (r: Option<u64>)
        requires
            old(self).wf(),
            is_valid_align(align as int),
            size < old(self)@.max_size,
            old(self).admits(size as int, align as int),
        ensures
            final(self).wf(),
            old(self)@.fits(size as int, align as int) ==> {
                let at = rounded_up(old(self)@.current_ptr as int, align as int);
                &&& r == Some(at as u64)
                &&& final(self)@ == old(self)@.bumped(at, size as int)
            },
            !old(self)@.fits(size as int, align as int) ==> r is None && final(self)@ == old(self)@,
    {
        proof {
            lemma_valid_align_is_pow2(align as int);
        }
        let new_ptr = align_up(self.current_ptr, align);
        if new_ptr + size as u64 > self.current_end {
            None
        } else {
            self.num_allocs = self.num_allocs + 1;
            self.total_allocated = self.total_allocated + size;
            self.current_ptr = new_ptr + size as u64;
            Some(new_ptr)
        }
    }

    /// Size of the block that must replace the active one for a request of
    /// `size` bytes: the active size, doubled until it holds the request.
    pub fn grown_block_size(&self, size: usize) -> (r: usize)
        requires
            self.wf(),
            grown_size(self@.block_size as nat, size as nat) <= usize::MAX,
        ensures
            r == grown_size(self@.block_size as nat, size as nat),
    {
        let mut block_size = self.block_size;
        while block_size < size
            invariant
                block_size > 0,
                grown_size(block_size as nat, size as nat) == grown_size(
                    self@.block_size as nat,
                    size as nat,
                ),
                grown_size(block_size as nat, size as nat) <= usize::MAX,
            decreases (if block_size < size {
        size - block_size
    } else {
        0
    }),
        {
            proof {
                lemma_grown_size_bounds(2 * block_size as nat, size as nat);
            }
            block_size = block_size * 2;
        }
        block_size
    }

    /// Routes a request: below the threshold it is served from the active block
    /// when it fits there, else a new block is asked for; at or above it, the
    /// device is asked directly. The caller's tag is masked to its external
    /// range.
    pub fn alloc_with_tag(&mut self, layout: Layout, tag: u16) -> (r: Plan)
        requires
            old(self).wf(),
            old(self).admits(layout.size() as int, layout.align() as int),
        ensures
            final(self).wf(),
            (r, final(self)@) == old(self)@.step(layout.size(), layout.align(), tag),
            r matches Plan::Ready(h) ==> {
                &&& h.ptr as int % layout.align() as int == 0
                &&& final(self)@.block <= h.ptr
                &&& h.ptr + layout.size() <= final(self)@.block + final(self)@.block_size
            },
    {
        let (size, align) = (layout.size(), layout.align());
        self.route(size, align, tag)
    }

    /// `alloc_with_tag` with an empty tag.
    pub fn alloc_untagged(&mut self, layout: Layout) -> (r: Plan)
        requires
            old(self).wf(),
            old(self).admits(layout.size() as int, layout.align() as int),
        ensures
            final(self).wf(),
            (r, final(self)@) == old(self)@.step(layout.size(), layout.align(), 0),
    {
        self.alloc_with_tag(layout, 0)
    }

    fn route(&mut self, size: usize, align: usize, tag: u16) -> (r: Plan)
        requires
            old(self).wf(),
            is_valid_align(align as int),
            old(self).admits(size as int, align as int),
        ensures
            final(self).wf(),
            (r, final(self)@) == old(self)@.step(size, align, tag),
            r matches Plan::Ready(h) ==> {
                &&& h.ptr as int % align as int == 0
                &&& final(self)@.block <= h.ptr
                &&& h.ptr + size <= final(self)@.block + final(self)@.block_size
            },
    {
        if size >= self.max_size {
            Plan::Direct { size }
        } else {
            match self.alloc_impl(size, align) {
                Some(ptr) => Plan::Ready(DevicePtr::with_tag(ptr, compose_tag(tag, false))),
                None => Plan::NewBlock { size, align, block_size: self.grown_block_size(size) },
            }
        }
    }

    /// Finishes a request that got `Plan::NewBlock`: the active block is
    /// retired onto the record, the fresh block at `block` becomes active, and
    /// the request is served at its base.
    pub fn alloc_from_new_block(&mut self, size: usize, align: usize, tag: u16, block: u64) -> (r:
        DevicePtr)
        requires
            old(self).wf(),
            is_valid_align(align as int),
            size < old(self)@.max_size,
            old(self).admits(size as int, align as int),
            !old(self)@.fits(size as int, align as int),
            block as int % MAX_ALIGNMENT as int == 0,
            block + grown_size(old(self)@.block_size as nat, size as nat) <= u64::MAX,
        ensures
            final(self).wf(),
            final(self)@ == old(self)@.regrown(block, size),
            r == (DevicePtr { ptr: block, tag: spec_compose_tag(tag, false) }),
            r.ptr as int % align as int == 0,
    {
        let block_size = self.grown_block_size(size);
        proof {
            lemma_grown_size_bounds(self@.block_size as nat, size as nat);
            lemma_block_aligned(block as int, align as int);
        }
        self.old_blocks.push(self.block);
        self.block = block;
        self.block_size = block_size;
        self.current_end = block + block_size as u64;
        let new_ptr = block;
        self.current_ptr = new_ptr + size as u64;
        self.num_allocs = self.num_allocs + 1;
        self.total_allocated = self.total_allocated + size;
        DevicePtr::with_tag(new_ptr, compose_tag(tag, false))
    }

    /// The handle for memory that came straight from the device: the caller's
    /// tag, masked, with the direct-allocation flag set.
    pub fn direct_handle(ptr: u64, tag: u16) -> (r: DevicePtr)
        ensures
            r == (DevicePtr { ptr, tag: spec_compose_tag(tag, true) }),
    {
        DevicePtr::with_tag(ptr, compose_tag(tag, true))
    }

    /// Row stride of a pitched region: `width_in_bytes` rounded up to
    /// `PITCH_ALIGNMENT`.
    pub fn pitch_for(width_in_bytes: usize) -> (r: usize)
        requires
            width_in_bytes + PITCH_ALIGNMENT - 1 <= usize::MAX,
        ensures
            r == rounded_up(width_in_bytes as int, PITCH_ALIGNMENT as int),
    {
        proof {
            lemma_valid_align_is_pow2(PITCH_ALIGNMENT as int);
        }
        align_up(width_in_bytes as u64, PITCH_ALIGNMENT) as usize
    }

    /// A pitched region of `height_in_rows` rows, each padded to the stride
    /// that is returned beside the plan; the region is aligned to
    /// `MAX_ALIGNMENT` and routed as `alloc_with_tag` routes a request.
    pub fn alloc_pitch_with_tag(
        &mut self,
        width_in_bytes: usize,
        height_in_rows: usize,
        _element_byte_size: usize,
        tag: u16,
    ) -> (r: (Plan, usize))
        requires
            old(self).wf(),
            width_in_bytes + PITCH_ALIGNMENT - 1 <= usize::MAX,
            rounded_up(width_in_bytes as int, PITCH_ALIGNMENT as int) * height_in_rows
                + MAX_ALIGNMENT - 1 <= isize::MAX,
            old(self).admits(
                rounded_up(width_in_bytes as int, PITCH_ALIGNMENT as int) * height_in_rows,
                MAX_ALIGNMENT as int,
            ),
        ensures
            final(self).wf(),
            r.1 == rounded_up(width_in_bytes as int, PITCH_ALIGNMENT as int),
            (r.0, final(self)@) == old(self)@.step(
                (r.1 * height_in_rows) as usize,
                MAX_ALIGNMENT,
                tag,
            ),
    {
        let pitch = Self::pitch_for(width_in_bytes);
        let size = pitch * height_in_rows;
        (self.route(size, MAX_ALIGNMENT, tag), pitch)
    }

    /// `alloc_pitch_with_tag` with an empty tag.
    pub fn alloc_pitch(
        &mut self,
        width_in_bytes: usize,
        height_in_rows: usize,
        element_byte_size: usize,
    ) -> (r: (Plan, usize))
        requires
            old(self).wf(),
            width_in_bytes + PITCH_ALIGNMENT - 1 <= usize::MAX,
            rounded_up(width_in_bytes as int, PITCH_ALIGNMENT as int) * height_in_rows
                + MAX_ALIGNMENT - 1 <= isize::MAX,
            old(self).admits(
                rounded_up(width_in_bytes as int, PITCH_ALIGNMENT as int) * height_in_rows,
                MAX_ALIGNMENT as int,
            ),
        ensures
            final(self).wf(),
            r.1 == rounded_up(width_in_bytes as int, PITCH_ALIGNMENT as int),
            (r.0, final(self)@) == old(self)@.step((r.1 * height_in_rows) as usize, MAX_ALIGNMENT, 0),
    {
        self.alloc_pitch_with_tag(width_in_bytes, height_in_rows, element_byte_size, 0)
    }

    /// Arena memory is never handed back one region at a time: this does
    /// nothing.
    pub fn dealloc(&mut self, ptr: DevicePtr)
        ensures
            final(self)@ == old(self)@,
    {
    }

    /// The number of requests served from the arena, and the bytes they asked
    /// for.
    pub fn report(&self) -> (r: (usize, usize))
        ensures
            r == (self@.num_allocs, self@.total_allocated),
    {
        (self.num_allocs, self.total_allocated)
    }

    pub fn max_size(&self) -> (r: usize)
        ensures
            r == self@.max_size,
    {
        self.max_size
    }

    /// Base of the active block.
    pub fn block(&self) -> (r: u64)
        ensures
            r == self@.block,
    {
        self.block
    }

    /// Size of the active block.
    pub fn block_size(&self) -> (r: usize)
        ensures
            r == self@.block_size,
    {
        self.block_size
    }

    /// Bases of the retired blocks, oldest first.
    pub fn old_blocks(&self) -> (r: &[u64])
        ensures
            r@ == self@.old_blocks,
    {
        self.old_blocks.as_slice()
    }
}

} // verus!
