//! Allocation requests and the regions handed back for them.

use vstd::prelude::*;

verus! {

/// The largest size a request may have: half the address space, so that
/// rounding a size up to whole pages always fits in a `usize`.
pub open spec fn max_request_size() -> int {
    (usize::MAX / 2) as int
}

/// An allocation request: a size in bytes and an alignment.
///
/// Every mapping is page-aligned, which satisfies any alignment a caller can
/// reasonably ask for, so the alignment is carried along and never acted on.
#[derive(Clone, Copy, Debug)]
pub struct Layout {
    pub(crate) size: usize,
    pub(crate) align: usize,
}

impl Layout {
    /// A layout's size never exceeds `max_request_size()`.
    #[verifier::type_invariant]
    pub open(crate) spec fn wf(self) -> bool {
        self.size <= max_request_size()
    }

    /// The requested size in bytes.
    pub open(crate) spec fn spec_size(&self) -> usize {
        self.size
    }

    /// The requested alignment in bytes.
    pub open(crate) spec fn spec_align(&self) -> usize {
        self.align
    }

    /// Builds a layout, or returns `None` when `size` is more than half the
    /// address space.
    pub fn from_size_align(size: usize, align: usize) -> (r: Option<Layout>)
        ensures
            r is Some <==> size <= max_request_size(),
            r matches Some(l) ==> l.wf() && l.spec_size() == size && l.spec_align() == align,
    {
        if size <= usize::MAX / 2 {
            Some(Layout { size, align })
        } else {
            None
        }
    }

    /// The requested size in bytes.
    #[verifier::when_used_as_spec(spec_size)]
    pub fn size(&self) -> (r: usize)
        ensures
            r == self.spec_size(),
            r <= max_request_size(),
    {
        proof {
            use_type_invariant(self);
        }
        self.size
    }

    /// The requested alignment in bytes.
    #[verifier::when_used_as_spec(spec_align)]
    pub fn align(&self) -> (r: usize)
        ensures
            r == self.spec_align(),
    {
        self.align
    }
}

/// A region of memory handed to a caller: its base address and usable length.
#[derive(Clone, Copy, Debug, PartialEq, Eq, Structural)]
pub struct FatPtr {
    pub addr: usize,
    pub len: usize,
}

} // verus!
