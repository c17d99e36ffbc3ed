use vstd::prelude::*;
use crate::align::is_valid_align;

verus! {

/// Size and alignment of a requested region. The alignment is a power of two
/// no larger than `MAX_ALIGNMENT`, and the size rounded up to it fits in `isize`.
#[derive(Clone, Copy, Debug)]
pub struct Layout {
    size: usize,
    align: usize,
}

/// Why a `Layout` could not be made.
#[derive(Clone, Copy, PartialEq, Eq, Structural, Debug)]
pub struct LayoutError;

/// A (size, alignment) pair that a `Layout` can hold.
pub open spec fn layout_ok(size: int, align: int) -> bool {
    is_valid_align(align) && size + align - 1 <= isize::MAX
}

impl Layout {
    #[verifier::type_invariant]
    spec fn inv(self) -> bool {
        layout_ok(self.size as int, self.align as int)
    }

    pub closed spec fn spec_size(&self) -> usize {
        self.size
    }

    pub closed spec fn spec_align(&self) -> usize {
        self.align
    }

    pub fn from_size_align(size: usize, align: usize) -> (r: Result<Layout, LayoutError>)
        ensures
            r is Ok <==> layout_ok(size as int, align as int),
            r matches Ok(l) ==> l.spec_size() == size && l.spec_align() == align,
    {
        let valid_align = align == 1 || align == 2 || align == 4 || align == 8 || align == 16
            || align == 32 || align == 64 || align == 128 || align == 256 || align == 512;
        if valid_align && size <= isize::MAX as usize - (align - 1) {
            Ok(Layout { size, align })
        } else {
            Err(LayoutError)
        }
    }

    #[verifier::when_used_as_spec(spec_size)]
    pub fn size(&self) -> (r: usize)
        ensures
            r == self.spec_size(),
            layout_ok(self.spec_size() as int, self.spec_align() as int),
    {
        proof {
            use_type_invariant(self);
        }
        self.size
    }

    #[verifier::when_used_as_spec(spec_align)]
    pub fn align(&self) -> (r: usize)
        ensures
            r == self.spec_align(),
            layout_ok(self.spec_size() as int, self.spec_align() as int),
    {
        proof {
            use_type_invariant(self);
        }
        self.align
    }
}

} // verus!
