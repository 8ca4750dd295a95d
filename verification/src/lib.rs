//! A memory allocator backend which tries to use huge pages for big allocations.

use nix::errno::Errno;
use vstd::pervasive::unreached;
use vstd::prelude::*;

use crate::layout::{FatPtr, Layout};
use crate::mmap::{MMap, MapError};
use crate::mmapper::{AllocError, MMapper, Request, Step, Task};
use crate::model::MMapperView;
use crate::page::{DefaultPageSize, PageSizeError, HUGE_PAGE_BYTES};

pub mod history;
pub mod layout;
pub mod mmap;
pub mod mmapper;
pub mod model;
pub mod page;
pub mod stats;

verus! {

/// Huge page allocator
pub struct HugeAllocator {
    pub(crate) mapper: MMapper,
}

impl View for HugeAllocator {
    type V = MMapperView;

    open(crate) spec fn view(&self) -> MMapperView {
        self.mapper@
    }
}

impl HugeAllocator {
    /// Creates a new huge page allocator with a given threshold percentage.
    /// As an example a threshold percentage of 50 will try and allocate a 2mb page for allocations >= 1mb
    ///
    /// The default page size is asked of the system, and whether it answers
    /// is the system's to decide. Whatever the system answered, the result
    /// goes by that answer: where it amounts to a page size, the allocator is
    /// the one that `with_default_page` makes with it; where it does not, the
    /// error is the one that `DefaultPageSize::from_sysconf` gives for it.
    pub fn new(threshold_pct: usize) -> (r: Result<Self, PageSizeError>)
        ensures
            (exists|answer: Result<Option<i64>, Errno>| Self::made_of(threshold_pct, answer, r)),
            r matches Ok(allocator) ==> allocator@ == MMapperView::new(
                threshold_pct,
                allocator@.default_page,
            ) && allocator@.wf(),
            r matches Err(PageSizeError::Invalid(val)) ==> !DefaultPageSize::valid(val as int),
    {
        let made = MMapper::new(threshold_pct);
        let ghost answer = choose|answer: Result<Option<i64>, Errno>|
            MMapper::made_of(threshold_pct, answer, made);
        let r = match made {
            Ok(mapper) => Ok(Self { mapper }),
            Err(e) => Err(e),
        };
        assert(Self::made_of(threshold_pct, answer, r));
        r
    }

    /// Whether `r` is what the answer `raw` of the system's page-size query
    /// leads to: a new allocator with the page size of its value, or the
    /// error that tells why there is no page size.
    pub open spec fn made_of(
        threshold_pct: usize,
        raw: Result<Option<i64>, Errno>,
        r: Result<HugeAllocator, PageSizeError>,
    ) -> bool {
        match DefaultPageSize::spec_from_sysconf(raw) {
            Ok(bytes) => {
                &&& r matches Ok(allocator)
                &&& allocator@.wf()
                &&& allocator@.default_page.spec_bytes() == bytes
                &&& allocator@ == MMapperView::new(threshold_pct, allocator@.default_page)
            },
            Err(e) => r matches Err(err) && err == e,
        }
    }

    /// Creates a new huge page allocator with a given threshold percentage,
    /// on a platform with the given default page size.
    pub fn with_default_page(threshold_pct: usize, default_page: DefaultPageSize) -> (r: Self)
        ensures
            r@ == MMapperView::new(threshold_pct, default_page),
            r@.wf(),
    {
        Self { mapper: MMapper::with_default_page(threshold_pct, default_page) }
    }

    /// Returns allocator statistics
    pub fn stats(&self) -> (r: Result<HugeAllocatorStats, AllocError>)
        ensures
            r == self@.stats(),
            r matches Ok(stats) ==> {
                &&& stats.default_alloc + stats.huge_alloc == stats.alloc
                &&& stats.default_mapped + stats.huge_mapped == stats.mapped
                &&& stats.default_segments + stats.huge_segments == stats.segments
                &&& stats.default_alloc <= stats.default_mapped
                &&& stats.huge_alloc <= stats.huge_mapped
                &&& stats.default_mapped as int % (self@.default_page.spec_bytes() as int) == 0
                &&& stats.huge_mapped as int % (HUGE_PAGE_BYTES as int) == 0
                &&& stats.mapped == 0 ==> stats.efficiency == 100
                &&& stats.mapped != 0 ==> stats.efficiency == (stats.alloc * 100) / (
                stats.mapped as int)
            },
    {
        self.mapper.stats()
    }

    /// Starts an allocation for `layout`. For a layout of no bytes nothing is
    /// asked of the operating system and the step is the end; else the step
    /// is the task to perform.
    pub fn allocate(&mut self, layout: Layout) -> (step: Step)
        ensures
            (final(self)@, step) == old(self)@.allocate(layout),
            final(self)@.wf(),
            final(self)@.stats.not_below(old(self)@.stats),
            step matches Step::Pending(task) ==> final(self)@.fits(task),
            layout.spec_size() > 0 ==> step is Pending && final(self)@ == old(self)@,
            layout.spec_size() == 0 ==> (step matches Step::Done(done) && (done.result is Ok
                <==> !old(self)@.segments.contains_key(0)) && (done.result matches Ok(region)
                ==> region == FatPtr { addr: 0, len: 0 })),
    {
        self.mapper.allocate(layout)
    }

    /// Starts an allocation of zeroed memory for `layout`.
    pub fn allocate_zeroed(&mut self, layout: Layout) -> (step: Step)
        ensures
            (final(self)@, step) == old(self)@.allocate(layout),
            final(self)@.wf(),
            final(self)@.stats.not_below(old(self)@.stats),
            step matches Step::Pending(task) ==> final(self)@.fits(task),
    {
        // Mapped pages are zeroed by default so just revert to allocate()
        self.allocate(layout)
    }

    /// Whether the address `ptr` is that of memory of this allocator.
    pub fn contains(&self, ptr: usize) -> (r: bool)
        ensures
            r == self@.segments.contains_key(ptr),
    {
        self.mapper.contains(ptr)
    }

    /// Gives the memory at `ptr` back: its segment leaves the allocator and
    /// is handed out to be unmapped. The address is one of memory of this
    /// allocator, which `contains` tells; after the call it is one no more,
    /// so that memory cannot be given back twice.
    pub fn deallocate(&mut self, ptr: usize, layout: Layout) -> (segment: MMap)
        requires
            old(self)@.segments.contains_key(ptr),
        ensures
            segment == old(self)@.segments[ptr],
            segment.spec_as_ptr() == ptr,
            final(self)@ == old(self)@.dealloc(ptr).0,
            final(self)@.segments == old(self)@.segments.remove(ptr),
            !final(self)@.segments.contains_key(ptr),
            final(self)@.stats == old(self)@.stats,
            final(self)@.wf(),
    {
        proof {
            use_type_invariant(&self.mapper);
        }
        match self.mapper.dealloc(ptr) {
            Ok(segment) => segment,
            Err(_) => unreached(),
        }
    }

    /// Starts growing the memory at `ptr` from `old_layout` to `new_layout`.
    pub fn grow(&mut self, ptr: usize, old_layout: Layout, new_layout: Layout) -> (step: Step)
        requires
            new_layout.spec_size() >= old_layout.spec_size(),
        ensures
            (final(self)@, step) == old(self)@.realloc(ptr, old_layout, new_layout),
            final(self)@.wf(),
            final(self)@.stats.not_below(old(self)@.stats),
            step matches Step::Pending(next) ==> final(self)@.fits(next),
            !old(self)@.segments.contains_key(ptr) ==> final(self)@ == old(self)@ && (
            step matches Step::Done(done) && done.result is Err),
            old(self)@.segments.contains_key(ptr) && new_layout.spec_size() > 0 ==> !(
            step matches Step::Done(done) && done.result is Err),
    {
        self.mapper.realloc(ptr, old_layout, new_layout)
    }

    /// Starts growing the memory at `ptr` from `old_layout` to `new_layout`,
    /// with zeroed memory beyond the old size.
    pub fn grow_zeroed(&mut self, ptr: usize, old_layout: Layout, new_layout: Layout) -> (step:
        Step)
        requires
            new_layout.spec_size() >= old_layout.spec_size(),
        ensures
            (final(self)@, step) == old(self)@.realloc(ptr, old_layout, new_layout),
            final(self)@.wf(),
            final(self)@.stats.not_below(old(self)@.stats),
            step matches Step::Pending(next) ==> final(self)@.fits(next),
            !old(self)@.segments.contains_key(ptr) ==> final(self)@ == old(self)@ && (
            step matches Step::Done(done) && done.result is Err),
            old(self)@.segments.contains_key(ptr) && new_layout.spec_size() > 0 ==> !(
            step matches Step::Done(done) && done.result is Err),
    {
        // Mapped pages are zeroed by default so just revert to grow()
        self.grow(ptr, old_layout, new_layout)
    }

    /// Starts shrinking the memory at `ptr` from `old_layout` to `new_layout`.
    pub fn shrink(&mut self, ptr: usize, old_layout: Layout, new_layout: Layout) -> (step: Step)
        requires
            new_layout.spec_size() <= old_layout.spec_size(),
        ensures
            (final(self)@, step) == old(self)@.realloc(ptr, old_layout, new_layout),
            final(self)@.wf(),
            final(self)@.stats.not_below(old(self)@.stats),
            step matches Step::Pending(next) ==> final(self)@.fits(next),
            !old(self)@.segments.contains_key(ptr) ==> final(self)@ == old(self)@ && (
            step matches Step::Done(done) && done.result is Err),
            old(self)@.segments.contains_key(ptr) && new_layout.spec_size() > 0 ==> !(
            step matches Step::Done(done) && done.result is Err),
    {
        self.mapper.realloc(ptr, old_layout, new_layout)
    }

    /// Empties the allocator: every segment leaves it and is handed out, once,
    /// to be unmapped.
    pub fn drain(&mut self) -> (segments: Vec<MMap>)
        ensures
            final(self)@ == old(self)@.drain(),
            final(self)@.wf(),
            segments@.len() == old(self)@.segments.dom().len(),
            forall|i: int|
                0 <= i < segments@.len() ==> old(self)@.segments.contains_key(
                    (#[trigger] segments@[i]).spec_as_ptr(),
                ) && old(self)@.segments[segments@[i].spec_as_ptr()] == segments@[i],
            forall|i: int, j: int|
                0 <= i < j < segments@.len() ==> (#[trigger] segments@[i]).spec_as_ptr() != (
                #[trigger] segments@[j]).spec_as_ptr(),
            forall|ptr: usize| #[trigger]
                old(self)@.segments.contains_key(ptr) ==> segments@.contains(
                    old(self)@.segments[ptr],
                ),
    {
        self.mapper.drain()
    }

    /// Whether `task` is one that the allocator can resume. Every task that
    /// the allocator hands out is one.
    pub fn fits(&self, task: &Task) -> (r: bool)
        ensures
            r == self@.fits(*task),
    {
        self.mapper.fits(task)
    }

    /// What `task` asks of the operating system.
    pub fn request(&self, task: &Task) -> (r: Request)
        requires
            self@.fits(*task),
        ensures
            r == self@.request(*task),
    {
        self.mapper.request(task)
    }

    /// Takes the operating system's answer to the request of `task`, and
    /// returns the next step.
    pub fn resume(&mut self, task: Task, outcome: Result<usize, MapError>) -> (step: Step)
        requires
            old(self)@.fits(task),
        ensures
            (final(self)@, step) == old(self)@.resume(task, outcome),
            final(self)@.wf(),
            final(self)@.stats.not_below(old(self)@.stats),
            step matches Step::Pending(next) ==> final(self)@.fits(next),
    {
        self.mapper.resume(task, outcome)
    }
}

/// Allocator performance statistics
#[derive(Debug, Clone, Copy, PartialEq, Eq, Structural)]
pub struct HugeAllocatorStats {
    /// Total amount of memory allocated in bytes
    pub alloc: usize,
    /// Total amount of memory mapped in bytes
    pub mapped: usize,
    /// Total number of segments mapped
    pub segments: usize,
    /// Amount of memory allocated in default page size pages in bytes
    pub default_alloc: usize,
    /// Amount of memory mapped in default page size pages in bytes
    pub default_mapped: usize,
    /// Number of default page size segments mapped
    pub default_segments: usize,
    /// Amount of memory allocated in huge pages in bytes
    pub huge_alloc: usize,
    /// Amount of memory mapped in huge pages in bytes
    pub huge_mapped: usize,
    /// Number of huge page segments mapped
    pub huge_segments: usize,
    /// Number of allocations missed due to lack of huge pages
    pub missed_allocs: usize,
    /// Allocations missed due to lack of huge pages, in whole megabytes
    pub missed_mb: usize,
    /// Allocations missed due to lack of huge pages, in bytes beyond the whole megabytes
    pub missed_bytes: usize,
    /// Number of failed remaps
    pub remaps_failed: usize,
    /// Percentage of mapped memory used by allocations
    pub efficiency: usize,
}

} // verus!
