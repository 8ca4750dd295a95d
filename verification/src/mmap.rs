//! Descriptors of anonymous memory mapped segments, and what creating and
//! resizing one asks of the operating system.

use vstd::arithmetic::div_mod::{lemma_fundamental_div_mod, lemma_mod_multiples_basic};
use vstd::arithmetic::mul::{lemma_mul_inequality, lemma_mul_is_distributive_add_other_way};
use vstd::prelude::*;

use crate::layout::{max_request_size, FatPtr, Layout};
use crate::page::{DefaultPageSize, MapFlags, PageSize, HUGE_PAGE_BYTES};

verus! {

/// The operating system could not provide or resize a mapping.
#[derive(Debug, Clone, Copy, PartialEq, Eq, Structural)]
pub struct MapError;

/// A mapping to ask the operating system for.
#[derive(Debug, Clone, Copy, PartialEq, Eq, Structural)]
pub struct MapRequest {
    /// The length of the mapping in bytes.
    pub length: usize,
    /// The mapping can be read.
    pub read: bool,
    /// The mapping can be written.
    pub write: bool,
    /// The flags to request it with.
    pub flags: MapFlags,
}

/// A resize of an existing mapping to ask the operating system for.
#[derive(Debug, Clone, Copy, PartialEq, Eq, Structural)]
pub struct RemapRequest {
    /// The base address of the mapping.
    pub addr: usize,
    /// Its current length in bytes.
    pub old_length: usize,
    /// The length to give it.
    pub new_length: usize,
    /// The system may move the mapping to another address.
    pub may_move: bool,
}

/// An unmapping of an existing mapping to ask the operating system for.
#[derive(Debug, Clone, Copy, PartialEq, Eq, Structural)]
pub struct UnmapRequest {
    /// The base address of the mapping.
    pub addr: usize,
    /// Its length in bytes.
    pub length: usize,
}

/// The size in bytes of the whole pages needed to hold `size` bytes, with
/// pages of `page_bytes` bytes; nothing is needed to hold nothing.
pub open spec fn spec_calc_alloc_size(size: int, page_bytes: int) -> int {
    if size > 0 {
        (((size - 1) / page_bytes) + 1) * page_bytes
    } else {
        0
    }
}

/// The allocation size is the least multiple of the page size that holds the
/// requested size: it is a whole number of pages, it is at least the size
/// asked for, and it exceeds it by less than a page.
pub proof fn lemma_alloc_size_is_least_multiple(size: int, page_bytes: int)
    requires
        0 <= size,
        0 < page_bytes,
    ensures
        spec_calc_alloc_size(size, page_bytes) % page_bytes == 0,
        size <= spec_calc_alloc_size(size, page_bytes) < size + page_bytes,
        size > 0 ==> spec_calc_alloc_size(size, page_bytes) >= page_bytes,
        forall|pages: int|
            size <= #[trigger] (pages * page_bytes) ==> spec_calc_alloc_size(size, page_bytes)
                <= pages * page_bytes,
{
    let total = spec_calc_alloc_size(size, page_bytes);
    if size > 0 {
        let full = (size - 1) / page_bytes;
        lemma_fundamental_div_mod(size - 1, page_bytes);
        lemma_mul_is_distributive_add_other_way(page_bytes, full, 1);
        assert(total == page_bytes * full + page_bytes) by (nonlinear_arith)
            requires
                total == (full + 1) * page_bytes,
        ;
        lemma_mod_multiples_basic(full + 1, page_bytes);
        assert forall|pages: int| size <= #[trigger] (pages * page_bytes) implies total <= pages
            * page_bytes by {
            if pages <= full {
                lemma_mul_inequality(pages, full, page_bytes);
                assert(page_bytes * full == full * page_bytes) by (nonlinear_arith);
            } else {
                lemma_mul_inequality(full + 1, pages, page_bytes);
            }
        }
    } else {
        assert(0int % page_bytes == 0) by (nonlinear_arith)
            requires
                page_bytes > 0,
        ;
        assert forall|pages: int| size <= #[trigger] (pages * page_bytes) implies total <= pages
            * page_bytes by {}
    }
}

/// Descriptor for anonymous memory mapped segments
#[derive(Debug)]
pub struct MMap {
    /// Address of the memory mapped section
    pub(crate) ptr: usize,
    /// Requested layout
    pub(crate) layout: Layout,
    /// Allocation size
    pub(crate) alloc_size: usize,
    /// Page size
    pub(crate) page_size: PageSize,
    /// Size in bytes of a page of that size
    pub(crate) page_bytes: usize,
}

impl MMap {
    /// The allocation size of a segment is its requested size rounded up to
    /// whole pages, and huge pages are 2MB pages. A segment for no bytes is
    /// empty: it has no pages, and stands at the null address.
    #[verifier::type_invariant]
    pub open(crate) spec fn wf(self) -> bool {
        &&& self.layout.wf()
        &&& self.layout.spec_size() == 0 ==> self.ptr == 0
        &&& DefaultPageSize::valid(self.page_bytes as int)
        &&& self.page_size == PageSize::Size2m ==> self.page_bytes == HUGE_PAGE_BYTES
        &&& self.alloc_size == spec_calc_alloc_size(
            self.layout.spec_size() as int,
            self.page_bytes as int,
        )
    }

    /// The base address of the segment.
    pub open(crate) spec fn spec_as_ptr(&self) -> usize {
        self.ptr
    }

    /// The layout that the segment was last requested for.
    pub open(crate) spec fn spec_layout(&self) -> Layout {
        self.layout
    }

    /// The requested size of the segment.
    pub open(crate) spec fn spec_size(&self) -> usize {
        self.layout.spec_size()
    }

    /// The total mapped size of the segment.
    pub open(crate) spec fn spec_alloc_size(&self) -> usize {
        self.alloc_size
    }

    /// The page size that backs the segment.
    pub open(crate) spec fn spec_page_size(&self) -> PageSize {
        self.page_size
    }

    /// The size in bytes of the pages that back the segment.
    pub open(crate) spec fn spec_page_bytes(&self) -> usize {
        self.page_bytes
    }

    /// The region that the segment hands to its user: its base address and
    /// its whole mapped size.
    pub open spec fn spec_fat_ptr(&self) -> FatPtr {
        FatPtr { addr: self.spec_as_ptr(), len: self.spec_alloc_size() }
    }

    /// Whether the segment is empty: it holds no page, and no mapping of the
    /// operating system stands for it.
    pub open spec fn spec_is_empty(&self) -> bool {
        self.spec_alloc_size() == 0
    }

    /// The segment that a mapping at `ptr` for `layout` is, with pages of
    /// `page_size`. The segment for a layout of no bytes is empty and stands
    /// at the null address, whatever `ptr` is.
    pub open(crate) spec fn spec_mapped(
        layout: Layout,
        page_size: PageSize,
        default_page: DefaultPageSize,
        ptr: usize,
    ) -> MMap {
        MMap {
            ptr: if layout.spec_size() == 0 {
                0
            } else {
                ptr
            },
            layout,
            alloc_size: spec_calc_alloc_size(
                layout.spec_size() as int,
                page_size.spec_bytes(&default_page) as int,
            ) as usize,
            page_size,
            page_bytes: page_size.spec_bytes(&default_page),
        }
    }

    /// What `map` asks of the operating system: nothing for a layout of no
    /// bytes, and else an anonymous, private, readable and writable mapping
    /// of the allocation size, with the flags of the page size.
    pub open spec fn spec_map_request(
        layout: Layout,
        page_size: PageSize,
        default_page: DefaultPageSize,
    ) -> Option<MapRequest> {
        if layout.spec_size() == 0 {
            None
        } else {
            Some(
                MapRequest {
                    length: spec_calc_alloc_size(
                        layout.spec_size() as int,
                        page_size.spec_bytes(&default_page) as int,
                    ) as usize,
                    read: true,
                    write: true,
                    flags: page_size.spec_map_flags(),
                },
            )
        }
    }

    /// The segment that `map` makes for `layout` when the operating system
    /// answers `outcome`: the empty segment for a layout of no bytes, for
    /// which nothing is asked and no answer is looked at; else the segment at
    /// the address of the mapping, or the refusal.
    pub open spec fn spec_map(
        layout: Layout,
        page_size: PageSize,
        default_page: DefaultPageSize,
        outcome: Result<usize, MapError>,
    ) -> Result<MMap, MapError> {
        if layout.spec_size() == 0 {
            Ok(Self::spec_mapped(layout, page_size, default_page, 0))
        } else {
            match outcome {
                Ok(ptr) => Ok(Self::spec_mapped(layout, page_size, default_page, ptr)),
                Err(e) => Err(e),
            }
        }
    }

    /// The allocation size that the segment has once it is resized for
    /// `new_layout`.
    pub open spec fn spec_remap_size(&self, new_layout: Layout) -> usize {
        spec_calc_alloc_size(new_layout.spec_size() as int, self.spec_page_bytes() as int) as usize
    }

    /// Whether the segment serves `new_layout` as it stands: its allocation
    /// size is the one that `new_layout` needs.
    pub open spec fn spec_stays(&self, new_layout: Layout) -> bool {
        self.spec_remap_size(new_layout) == self.spec_alloc_size()
    }

    /// What resizing the segment for `new_layout` asks of the operating
    /// system: a resize that may move the mapping, where the allocation size
    /// changes from some pages to some pages. Nothing is asked where the
    /// allocation size stays the same, and nothing can be asked where the
    /// segment is empty or is to become empty: no mapping stands for an
    /// empty segment.
    pub open spec fn spec_remap_request(&self, new_layout: Layout) -> Option<RemapRequest> {
        if self.spec_stays(new_layout) || self.spec_is_empty() || self.spec_remap_size(new_layout)
            == 0 {
            None
        } else {
            Some(
                RemapRequest {
                    addr: self.spec_as_ptr(),
                    old_length: self.spec_alloc_size(),
                    new_length: self.spec_remap_size(new_layout),
                    may_move: true,
                },
            )
        }
    }

    /// Whether a resize for `new_layout` goes through when the operating
    /// system answers `outcome`: it does where the segment serves the layout
    /// as it stands, and where the system made the resize that was asked of
    /// it.
    pub open spec fn spec_remap_ok(
        &self,
        new_layout: Layout,
        outcome: Result<usize, MapError>,
    ) -> bool {
        self.spec_stays(new_layout) || (self.spec_remap_request(new_layout) is Some
            && outcome is Ok)
    }

    /// The segment after a resize for `new_layout` to which the operating
    /// system answered `outcome`: where the allocation size stays the same the
    /// answer is not looked at; a resize that the system made gives the
    /// segment its new address and size; every other resize leaves the
    /// segment as it was.
    pub open(crate) spec fn spec_remapped(
        self,
        new_layout: Layout,
        outcome: Result<usize, MapError>,
    ) -> MMap {
        if self.spec_stays(new_layout) {
            MMap { layout: new_layout, ..self }
        } else if self.spec_remap_request(new_layout) is Some && outcome is Ok {
            MMap {
                ptr: outcome->Ok_0,
                layout: new_layout,
                alloc_size: self.spec_remap_size(new_layout),
                ..self
            }
        } else {
            self
        }
    }

    /// What releasing the segment asks of the operating system: nothing for
    /// an empty segment, and else the unmapping of its pages.
    pub open spec fn spec_unmap_request(&self) -> Option<UnmapRequest> {
        if self.spec_is_empty() {
            None
        } else {
            Some(UnmapRequest { addr: self.spec_as_ptr(), length: self.spec_alloc_size() })
        }
    }

    /// Describes the segment for `layout` with pages of `page_size`, where
    /// `outcome` is the operating system's answer to
    /// `map_request(layout, page_size, default_page)`: the address of the
    /// mapping, or its refusal. For a layout of no bytes nothing was to be
    /// asked, `outcome` is not looked at, and the segment is empty.
    pub fn new(
        layout: Layout,
        page_size: &PageSize,
        default_page: &DefaultPageSize,
        outcome: Result<usize, MapError>,
    ) -> (r: Result<MMap, MapError>)
        ensures
            r == Self::spec_map(layout, *page_size, *default_page, outcome),
            r matches Ok(m) ==> m.wf(),
            layout.spec_size() == 0 ==> (r matches Ok(m) && m.spec_is_empty() && m.spec_as_ptr()
                == 0),
            layout.spec_size() > 0 ==> (r is Ok <==> outcome is Ok),
    {
        Self::map(layout, page_size, default_page, outcome)
    }

    /// Returns the fat pointer
    #[verifier::when_used_as_spec(spec_fat_ptr)]
    pub fn fat_ptr(&self) -> (r: FatPtr)
        ensures
            r == self.spec_fat_ptr(),
    {
        FatPtr { addr: self.ptr, len: self.alloc_size }
    }

    /// Returns the address of the memory mapped segment
    #[verifier::when_used_as_spec(spec_as_ptr)]
    pub fn as_ptr(&self) -> (r: usize)
        ensures
            r == self.spec_as_ptr(),
    {
        self.ptr
    }

    /// Returns the address and the mapped size of the memory mapped segment
    pub fn as_fat_ptr(&self) -> (r: (usize, usize))
        ensures
            r == (self.spec_as_ptr(), self.spec_alloc_size()),
    {
        (self.as_ptr(), self.alloc_size)
    }

    /// Returns the allocation size of the segment
    #[verifier::when_used_as_spec(spec_size)]
    pub fn size(&self) -> (r: usize)
        ensures
            r == self.spec_size(),
            r <= self.spec_alloc_size(),
            r <= max_request_size(),
    {
        proof {
            use_type_invariant(self);
            lemma_alloc_size_is_least_multiple(
                self.layout.spec_size() as int,
                self.page_bytes as int,
            );
        }
        self.layout.size()
    }

    /// Returns the total mapped size of the segment
    #[verifier::when_used_as_spec(spec_alloc_size)]
    pub fn alloc_size(&self) -> (r: usize)
        ensures
            r == self.spec_alloc_size(),
            r == spec_calc_alloc_size(self.spec_size() as int, self.spec_page_bytes() as int),
            r % self.spec_page_bytes() == 0,
            r >= self.spec_size(),
    {
        proof {
            use_type_invariant(self);
            lemma_alloc_size_is_least_multiple(
                self.layout.spec_size() as int,
                self.page_bytes as int,
            );
        }
        self.alloc_size
    }

    /// Returns the mapped page size
    #[verifier::when_used_as_spec(spec_page_size)]
    pub fn page_size(&self) -> (r: PageSize)
        ensures
            r == self.spec_page_size(),
    {
        self.page_size
    }

    /// Returns the size in bytes of the pages that back the segment
    #[verifier::when_used_as_spec(spec_page_bytes)]
    pub fn page_bytes(&self) -> (r: usize)
        ensures
            r == self.spec_page_bytes(),
            DefaultPageSize::valid(r as int),
            self.spec_page_size() == PageSize::Size2m ==> r == HUGE_PAGE_BYTES,
    {
        proof {
            use_type_invariant(self);
        }
        self.page_bytes
    }

    /// Whether the segment is empty.
    #[verifier::when_used_as_spec(spec_is_empty)]
    pub fn is_empty(&self) -> (r: bool)
        ensures
            r == self.spec_is_empty(),
            r <==> self.spec_size() == 0,
            r ==> self.spec_as_ptr() == 0,
    {
        proof {
            use_type_invariant(self);
            lemma_alloc_size_is_least_multiple(
                self.layout.spec_size() as int,
                self.page_bytes as int,
            );
        }
        self.alloc_size == 0
    }

    /// What releasing the segment asks of the operating system, if anything.
    #[verifier::when_used_as_spec(spec_unmap_request)]
    pub fn unmap_request(&self) -> (r: Option<UnmapRequest>)
        ensures
            r == self.spec_unmap_request(),
    {
        if self.alloc_size == 0 {
            None
        } else {
            Some(UnmapRequest { addr: self.ptr, length: self.alloc_size })
        }
    }

    /// What resizing the segment for `new_layout` asks of the operating
    /// system, if anything.
    #[verifier::when_used_as_spec(spec_remap_request)]
    pub fn remap_request(&self, new_layout: Layout) -> (r: Option<RemapRequest>)
        ensures
            r == self.spec_remap_request(new_layout),
    {
        proof {
            use_type_invariant(self);
        }
        let new_alloc_size: usize = Self::calc_alloc_size(new_layout.size(), self.page_bytes);
        if self.alloc_size != new_alloc_size && self.alloc_size != 0 && new_alloc_size != 0 {
            Some(self.resize_request(new_layout))
        } else {
            None
        }
    }

    /// The request for a resize that changes the allocation size from some
    /// pages to some pages.
    pub(crate) fn resize_request(&self, new_layout: Layout) -> (r: RemapRequest)
        requires
            self.spec_remap_request(new_layout) is Some,
        ensures
            Some(r) == self.spec_remap_request(new_layout),
    {
        proof {
            use_type_invariant(self);
        }
        RemapRequest {
            addr: self.ptr,
            old_length: self.alloc_size,
            new_length: Self::calc_alloc_size(new_layout.size(), self.page_bytes),
            may_move: true,
        }
    }

    /// Whether the segment serves `new_layout` as it stands.
    #[verifier::when_used_as_spec(spec_stays)]
    pub fn stays(&self, new_layout: Layout) -> (r: bool)
        ensures
            r == self.spec_stays(new_layout),
    {
        proof {
            use_type_invariant(self);
        }
        self.alloc_size == Self::calc_alloc_size(new_layout.size(), self.page_bytes)
    }

    /// Remaps a memory section
    ///
    /// `outcome` is the operating system's answer to
    /// `self.remap_request(new_layout)`: the address that the mapping now has,
    /// or its refusal. Where nothing was to be asked, `outcome` is not looked
    /// at: the segment takes the new layout if its allocation size stays the
    /// same, and is left as it is if it is empty or is to become empty.
    /// Returns whether the segment now serves `new_layout`.
    pub fn remap(&mut self, new_layout: Layout, outcome: Result<usize, MapError>) -> (ok: bool)
        ensures
            ok == old(self).spec_remap_ok(new_layout, outcome),
            *final(self) == old(self).spec_remapped(new_layout, outcome),
            final(self).wf(),
            final(self).spec_page_size() == old(self).spec_page_size(),
            final(self).spec_page_bytes() == old(self).spec_page_bytes(),
            ok ==> final(self).spec_layout() == new_layout,
            !ok ==> *final(self) == *old(self),
    {
        proof {
            use_type_invariant(&*self);
            lemma_alloc_size_is_least_multiple(
                new_layout.spec_size() as int,
                self.page_bytes as int,
            );
            lemma_alloc_size_is_least_multiple(
                self.layout.spec_size() as int,
                self.page_bytes as int,
            );
        }
        let new_alloc_size: usize = Self::calc_alloc_size(new_layout.size(), self.page_bytes);
        if self.alloc_size != new_alloc_size {
            if self.alloc_size == 0 || new_alloc_size == 0 {
                // No mapping stands for an empty segment
                return false;
            }
            // Try and remap
            match outcome {
                Ok(ptr) => {
                    // Success
                    *self = MMap {
                        ptr,
                        layout: new_layout,
                        alloc_size: new_alloc_size,
                        page_size: self.page_size,
                        page_bytes: self.page_bytes,
                    };
                    true
                },
                Err(_) => {
                    // Failed
                    false
                },
            }
        } else {
            *self = MMap {
                ptr: self.ptr,
                layout: new_layout,
                alloc_size: self.alloc_size,
                page_size: self.page_size,
                page_bytes: self.page_bytes,
            };
            true
        }
    }

    /// What mapping a segment for `layout` with pages of `page_size` asks of
    /// the operating system, if anything.
    #[verifier::when_used_as_spec(spec_map_request)]
    pub fn map_request(layout: Layout, page_size: PageSize, default_page: DefaultPageSize) -> (r:
        Option<MapRequest>)
        ensures
            r == Self::spec_map_request(layout, page_size, default_page),
    {
        if layout.size() == 0 {
            // An empty segment needs no mapping
            return None;
        }
        Some(Self::pages_request(layout, page_size, default_page))
    }

    /// The request for the pages of a segment for some bytes.
    pub(crate) fn pages_request(
        layout: Layout,
        page_size: PageSize,
        default_page: DefaultPageSize,
    ) -> (r: MapRequest)
        requires
            layout.spec_size() > 0,
        ensures
            Some(r) == Self::spec_map_request(layout, page_size, default_page),
    {
        // Calculate mmap flags for this page size
        let flags = page_size.map_flags();

        // Calculate size of mapped area
        let length: usize = Self::calc_alloc_size(layout.size(), page_size.bytes(&default_page));

        MapRequest { length, read: true, write: true, flags }
    }

    /// The empty segment for a layout of no bytes, with pages of `page_size`.
    pub fn empty(layout: Layout, page_size: PageSize, default_page: DefaultPageSize) -> (r: MMap)
        requires
            layout.spec_size() == 0,
        ensures
            r == Self::spec_mapped(layout, page_size, default_page, 0),
            r.wf(),
            r.spec_is_empty(),
            r.spec_as_ptr() == 0,
    {
        let page_bytes: usize = page_size.bytes(&default_page);
        MMap { ptr: 0, layout, alloc_size: 0, page_size, page_bytes }
    }

    /// Describes the anonymous read write segment that the operating system
    /// mapped with the given page size, or hands on its refusal. A segment
    /// for no bytes is empty and needs no mapping.
    fn map(
        layout: Layout,
        page_size: &PageSize,
        default_page: &DefaultPageSize,
        outcome: Result<usize, MapError>,
    ) -> (r: Result<MMap, MapError>)
        ensures
            r == Self::spec_map(layout, *page_size, *default_page, outcome),
            r matches Ok(m) ==> m.wf(),
    {
        if layout.size() == 0 {
            return Ok(Self::empty(layout, *page_size, *default_page));
        }
        let page_bytes: usize = page_size.bytes(default_page);
        let alloc_size: usize = Self::calc_alloc_size(layout.size(), page_bytes);
        match outcome {
            Ok(ptr) => Ok(MMap { ptr, layout, alloc_size, page_size: *page_size, page_bytes }),
            Err(e) => Err(e),
        }
    }

    /// Calculates the allocation size (whole pages) required for the size required
    pub fn calc_alloc_size(size: usize, page_bytes: usize) -> (r: usize)
        requires
            size <= max_request_size(),
            DefaultPageSize::valid(page_bytes as int),
        ensures
            r == spec_calc_alloc_size(size as int, page_bytes as int),
            r % page_bytes == 0,
            size <= r < size + page_bytes,
    {
        proof {
            lemma_alloc_size_is_least_multiple(size as int, page_bytes as int);
        }
        if size > 0 {
            let pages: usize = ((size - 1) / page_bytes) + 1;
            assert(pages * page_bytes == spec_calc_alloc_size(size as int, page_bytes as int));
            pages * page_bytes
        } else {
            0
        }
    }
}

} // verus!
