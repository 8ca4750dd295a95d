//! The tracker of memory mapped segments: which page size a request gets,
//! which segment stands at which address, and what was missed on the way.

use nix::errno::Errno;
use std::collections::HashMap;
use vstd::prelude::*;
use vstd::std_specs::hash::{group_hash_axioms, spec_hash_map_iter, spec_keys_iter};
use vstd::std_specs::iter::IteratorSpec;

use crate::layout::{max_request_size, FatPtr, Layout};
use crate::mmap::{lemma_alloc_size_is_least_multiple, MMap, MapError, MapRequest, RemapRequest};
use crate::model::MMapperView;
use crate::page::{DefaultPageSize, PageSize, PageSizeError, HUGE_PAGE_BYTES};
use crate::stats::{
    lemma_sum_remove, mapped, one, requested, sum_segments, total_mapped, total_requested,
    total_segments,
};
use crate::HugeAllocatorStats;

verus! {

broadcast use group_hash_axioms;

/// The number of bytes in a megabyte.
pub const MEGABYTE: usize = 1024 * 1024;

/// No memory could be handed out, or the address is not one of a tracked
/// segment.
#[derive(Debug, Clone, Copy, PartialEq, Eq, Structural)]
pub struct AllocError;

/// The sum of `a` and `b`, or the largest `usize` where the sum exceeds it.
pub open spec fn saturating_sum(a: int, b: int) -> usize {
    if a + b > usize::MAX {
        usize::MAX
    } else {
        (a + b) as usize
    }
}

/// Running counters of what the tracker missed. Each counter stays at the
/// largest `usize` once it has reached it.
#[derive(Debug, Clone, Copy, PartialEq, Eq, Structural)]
pub struct MMapperStats {
    /// Number of allocations that missed huge pages
    pub missed_allocs: usize,
    /// Bytes that missed huge pages, beyond the whole megabytes
    pub missed_bytes: usize,
    /// Whole megabytes that missed huge pages
    pub missed_mb: usize,
    /// Number of resizes that the operating system refused
    pub remaps_failed: usize,
}

impl MMapperStats {
    /// The counters of a tracker that has missed nothing yet.
    pub open spec fn zero() -> MMapperStats {
        MMapperStats { missed_allocs: 0, missed_bytes: 0, missed_mb: 0, remaps_failed: 0 }
    }

    /// All the bytes that missed huge pages.
    pub open spec fn missed_total(self) -> int {
        self.missed_mb * MEGABYTE + self.missed_bytes
    }

    /// Whether the counters can take one more missed allocation of `bytes`
    /// bytes without the megabytes reaching the largest `usize`.
    pub open spec fn has_room(self, bytes: usize) -> bool {
        self.missed_mb + (self.missed_bytes + bytes) / (MEGABYTE as int) <= usize::MAX
    }

    /// The counters after one more allocation of `bytes` bytes missed huge
    /// pages: once the bytes exceed a megabyte, the whole megabytes among
    /// them are carried over.
    pub open spec fn with_missed(self, bytes: usize) -> MMapperStats {
        let sum = self.missed_bytes + bytes;
        MMapperStats {
            missed_allocs: saturating_sum(self.missed_allocs as int, 1),
            missed_bytes: if sum > MEGABYTE {
                (sum % (MEGABYTE as int)) as usize
            } else {
                sum as usize
            },
            missed_mb: if sum > MEGABYTE {
                saturating_sum(self.missed_mb as int, sum / (MEGABYTE as int))
            } else {
                self.missed_mb
            },
            remaps_failed: self.remaps_failed,
        }
    }

    /// Carrying megabytes over loses no byte: as long as the megabytes have
    /// room, the bytes that missed huge pages grow by exactly `bytes`, and
    /// the bytes beyond the whole megabytes never exceed a megabyte.
    pub proof fn lemma_with_missed_adds_bytes(self, bytes: usize)
        requires
            self.missed_bytes <= MEGABYTE,
        ensures
            self.with_missed(bytes).missed_bytes <= MEGABYTE,
            self.has_room(bytes) ==> self.with_missed(bytes).missed_total() == self.missed_total()
                + bytes,
            self.with_missed(bytes).remaps_failed == self.remaps_failed,
            self.missed_allocs < usize::MAX ==> self.with_missed(bytes).missed_allocs
                == self.missed_allocs + 1,
    {
    }

    /// Whether no counter is smaller than it is in `earlier`: the missed
    /// allocations, the missed megabytes and the failed resizes.
    pub open spec fn not_below(self, earlier: MMapperStats) -> bool {
        &&& self.missed_allocs >= earlier.missed_allocs
        &&& self.missed_mb >= earlier.missed_mb
        &&& self.remaps_failed >= earlier.remaps_failed
    }

    /// The counters after one more resize was refused.
    pub open spec fn with_failed_remap(self) -> MMapperStats {
        MMapperStats { remaps_failed: saturating_sum(self.remaps_failed as int, 1), ..self }
    }
}

/// A copy of `len` bytes from the address `src` to the address `dst`.
#[derive(Debug, Clone, Copy, PartialEq, Eq, Structural)]
pub struct CopyRequest {
    pub src: usize,
    pub dst: usize,
    pub len: usize,
}

/// The segment that a reallocation moves out of, and the size that its user
/// had in it.
#[derive(Debug)]
pub struct Source {
    pub segment: MMap,
    pub old_size: usize,
}

/// What an allocation or reallocation waits for: the operating system's
/// answer to a request.
#[derive(Debug)]
pub enum Task {
    /// A mapping for `layout` was asked for with pages of `page_size`. When
    /// it stands, the contents of `source` move to it.
    Mapping { layout: Layout, page_size: PageSize, source: Option<Source> },
    /// A resize of `segment` for `new_layout` was asked for; its user had
    /// `old_size` bytes in it.
    Remapping { segment: MMap, old_size: usize, new_layout: Layout },
}

/// What the operating system is asked to do for a task.
#[derive(Debug, Clone, Copy, PartialEq, Eq, Structural)]
pub enum Request {
    Mmap(MapRequest),
    Mremap(RemapRequest),
}

/// How an allocation or reallocation ended, and what is left to do for it:
/// first the copy, then the release of the segments that left the tracker.
#[derive(Debug)]
pub struct Completion {
    /// The region for the caller, or the failure
    pub result: Result<FatPtr, AllocError>,
    /// Bytes to copy into the new region
    pub copy: Option<CopyRequest>,
    /// The segment that the reallocation moved out of, to be unmapped
    pub retired: Option<MMap>,
    /// The segment that stood at the address of the new one, to be unmapped
    pub displaced: Option<MMap>,
}

/// The next step of an allocation or reallocation.
#[derive(Debug)]
pub enum Step {
    /// Perform the task's request and resume with the answer
    Pending(Task),
    /// Nothing more to ask
    Done(Completion),
}

/// A collection of tracked memory mapped segments
pub struct MMapper {
    /// Threshold percentage to try and use huge pages.
    /// For example a threshold percentage of 50 will try and allocate a 2mb page for allocations >= 1mb
    pub(crate) threshold_pct: usize,
    pub(crate) default_page: DefaultPageSize,
    pub(crate) ptr_map: HashMap<usize, MMap>,
    pub(crate) stats: MMapperStats,
}

impl View for MMapper {
    type V = MMapperView;

    open(crate) spec fn view(&self) -> MMapperView {
        MMapperView {
            threshold_pct: self.threshold_pct,
            default_page: self.default_page,
            segments: self.ptr_map@,
            stats: self.stats,
        }
    }
}

impl MMapper {
    /// The state of a tracker is well formed at all times.
    #[verifier::type_invariant]
    pub open(crate) spec fn wf(self) -> bool {
        self@.wf()
    }

    /// Create a new memory mappings container
    ///
    /// The default page size is asked of the system, and whether it answers
    /// is the system's to decide. Whatever the system answered, the result
    /// goes by that answer: where it amounts to a page size, the tracker is
    /// the one that `with_default_page` makes with it, with the given
    /// threshold, an empty table and counters at zero; where it does not, the
    /// error is the one that `DefaultPageSize::from_sysconf` gives for it.
    pub fn new(threshold_pct: usize) -> (r: Result<Self, PageSizeError>)
        ensures
            (exists|answer: Result<Option<i64>, Errno>| Self::made_of(threshold_pct, answer, r)),
            r matches Ok(mapper) ==> mapper@ == MMapperView::new(
                threshold_pct,
                mapper@.default_page,
            ) && mapper@.wf(),
            r matches Err(PageSizeError::Invalid(val)) ==> !DefaultPageSize::valid(val as int),
    {
        let page = DefaultPageSize::query();
        let ghost answer = choose|answer: Result<Option<i64>, Errno>|
            DefaultPageSize::made_of(answer, page);
        let r = match page {
            Ok(default_page) => Ok(Self::with_default_page(threshold_pct, default_page)),
            Err(e) => Err(e),
        };
        assert(Self::made_of(threshold_pct, answer, r));
        r
    }

    /// Whether `r` is what the answer `raw` of the system's page-size query
    /// leads to: a new tracker with the page size of its value, or the error
    /// that tells why there is no page size.
    pub open spec fn made_of(
        threshold_pct: usize,
        raw: Result<Option<i64>, Errno>,
        r: Result<MMapper, PageSizeError>,
    ) -> bool {
        match DefaultPageSize::spec_from_sysconf(raw) {
            Ok(bytes) => {
                &&& r matches Ok(mapper)
                &&& mapper@.wf()
                &&& mapper@.default_page.spec_bytes() == bytes
                &&& mapper@ == MMapperView::new(threshold_pct, mapper@.default_page)
            },
            Err(e) => r matches Err(err) && err == e,
        }
    }

    /// Create a new memory mappings container on a platform with the given
    /// default page size
    pub fn with_default_page(threshold_pct: usize, default_page: DefaultPageSize) -> (r: Self)
        ensures
            r@ == MMapperView::new(threshold_pct, default_page),
            r@.wf(),
    {
        proof {
            use_type_invariant(&default_page);
        }
        Self {
            threshold_pct,
            default_page,
            ptr_map: HashMap::new(),
            stats: MMapperStats {
                missed_allocs: 0,
                missed_bytes: 0,
                missed_mb: 0,
                remaps_failed: 0,
            },
        }
    }

    /// Deallocates an anonymous memory mapped segment
    ///
    /// The segment leaves the table and is handed to the caller, who unmaps
    /// it.
    pub fn dealloc(&mut self, ptr: usize) -> (r: Result<MMap, AllocError>)
        ensures
            (final(self)@, r) == old(self)@.dealloc(ptr),
            final(self)@.wf(),
            r is Ok <==> old(self)@.segments.contains_key(ptr),
            r is Err ==> final(self)@ == old(self)@,
            !final(self)@.segments.contains_key(ptr),
            final(self)@.stats == old(self)@.stats,
    {
        // Remove from the map
        match self.map_remove(ptr) {
            Some(mmap) => Ok(mmap),
            None => Err(AllocError),
        }
    }

    /// Allocates an anonymous memory mapped segment
    ///
    /// For a layout of no bytes nothing is asked of the operating system:
    /// the empty segment enters the table at once, and the step is the end.
    /// Else the step is the task to perform: its request goes to the
    /// operating system, and `resume` takes the answer.
    pub fn allocate(&mut self, layout: Layout) -> (step: Step)
        ensures
            (final(self)@, step) == old(self)@.allocate(layout),
            final(self)@.wf(),
            final(self)@.stats.not_below(old(self)@.stats),
            step matches Step::Pending(task) ==> final(self)@.fits(task),
            layout.spec_size() > 0 ==> step is Pending && final(self)@ == old(self)@,
            layout.spec_size() == 0 ==> (step matches Step::Done(done) && (done.result is Ok
                <==> !old(self)@.segments.contains_key(0)) && (done.result matches Ok(region)
                ==> region == FatPtr { addr: 0, len: 0 })),
    {
        proof {
            use_type_invariant(&*self);
            use_type_invariant(&layout);
            self@.lemma_allocate_keeps_wf(layout);
            if layout.spec_size() == 0 {
                self@.lemma_allocate_nothing_asks_nothing(layout);
            }
        }
        // Calculate page size for this allocation
        let page_size = self.target_page_size(layout.size());

        self.map(layout, page_size, None)
    }

    /// Whether the address `ptr` is that of a tracked segment.
    pub fn contains(&self, ptr: usize) -> (r: bool)
        ensures
            r == self@.segments.contains_key(ptr),
    {
        self.ptr_map.contains_key(&ptr)
    }

    /// Whether `task` is one that the tracker can resume. Every task that
    /// the tracker hands out is one.
    pub fn fits(&self, task: &Task) -> (r: bool)
        ensures
            r == self@.fits(*task),
    {
        match task {
            Task::Mapping { layout, page_size, source } => {
                proof {
                    use_type_invariant(layout);
                }
                layout.size() > 0 && match source {
                    Some(src) => self.fits_segment(&src.segment),
                    None => true,
                }
            },
            Task::Remapping { segment, old_size, new_layout } => {
                proof {
                    use_type_invariant(new_layout);
                }
                self.fits_segment(segment) && segment.remap_request(*new_layout).is_some()
            },
        }
    }

    /// Whether `mmap` stands on pages of the tracker's platform.
    fn fits_segment(&self, mmap: &MMap) -> (r: bool)
        ensures
            r == self@.fits_segment(*mmap),
    {
        proof {
            use_type_invariant(mmap);
        }
        mmap.page_bytes() == mmap.page_size().bytes(&self.default_page)
    }

    /// What `task` asks of the operating system.
    pub fn request(&self, task: &Task) -> (r: Request)
        requires
            self@.fits(*task),
        ensures
            r == self@.request(*task),
    {
        match task {
            Task::Mapping { layout, page_size, source } => Request::Mmap(
                MMap::pages_request(*layout, *page_size, self.default_page),
            ),
            Task::Remapping { segment, old_size, new_layout } => Request::Mremap(
                segment.resize_request(*new_layout),
            ),
        }
    }

    /// Takes the operating system's answer to the request of `task`: the
    /// address of the mapping, or its refusal. Returns the next step.
    pub fn resume(&mut self, task: Task, outcome: Result<usize, MapError>) -> (step: Step)
        requires
            old(self)@.fits(task),
        ensures
            (final(self)@, step) == old(self)@.resume(task, outcome),
            final(self)@.wf(),
            final(self)@.stats.not_below(old(self)@.stats),
            step matches Step::Pending(next) ==> final(self)@.fits(next),
            match (task, step) {
                (Task::Mapping { layout, page_size, source }, Step::Done(done)) => match done.result {
                    Ok(region) => {
                        &&& outcome == Ok::<usize, MapError>(region.addr)
                        &&& !old(self)@.segments.contains_key(region.addr)
                        &&& region.len >= layout.spec_size()
                        &&& region.len % page_size.spec_bytes(&old(self)@.default_page) == 0
                    },
                    Err(_) => outcome is Ok ==> old(self)@.segments.contains_key(outcome->Ok_0),
                },
                _ => true,
            },
    {
        proof {
            use_type_invariant(&*self);
            self@.lemma_resume_keeps_wf(task, outcome);
            if task is Mapping {
                lemma_alloc_size_is_least_multiple(
                    task->Mapping_layout.spec_size() as int,
                    task->Mapping_page_size.spec_bytes(&self.default_page) as int,
                );
            }
        }
        match task {
            Task::Mapping { layout, page_size, source } => {
                // Create the anon memory map with the desired page size
                match MMap::new(layout, &page_size, &self.default_page, outcome) {
                    Ok(mmap) => {
                        if page_size == PageSize::SizeDefault && self.target_page_size(
                            layout.size(),
                        ) == PageSize::Size2m {
                            // Log missed allocation
                            self.add_missed(layout.size());
                        }
                        Step::Done(self.place(mmap, source))
                    },
                    Err(_) => {
                        if page_size == PageSize::Size2m {
                            // Failed - try default page size
                            Step::Pending(
                                Task::Mapping { layout, page_size: PageSize::SizeDefault, source },
                            )
                        } else {
                            Step::Done(Self::failed(source))
                        }
                    },
                }
            },
            Task::Remapping { segment, old_size, new_layout } => {
                let mut mmap = segment;
                if mmap.remap(new_layout, outcome) {
                    self.resized(mmap, old_size)
                } else {
                    // Failed to remap
                    self.add_failed_remap();

                    // Allocate new segment
                    let page_size = self.target_page_size(new_layout.size());
                    self.map(new_layout, page_size, Some(Source { segment: mmap, old_size }))
                }
            },
        }
    }

    /// Reallocates an anonymous memory mapped segment
    ///
    /// Returns the next step: the end, where the address is not tracked or
    /// nothing is to be asked of the operating system, else the task to
    /// perform.
    pub fn realloc(&mut self, ptr: usize, old_layout: Layout, new_layout: Layout) -> (step: Step)
        ensures
            (final(self)@, step) == old(self)@.realloc(ptr, old_layout, new_layout),
            final(self)@.wf(),
            final(self)@.stats.not_below(old(self)@.stats),
            step matches Step::Pending(next) ==> final(self)@.fits(next),
            !old(self)@.segments.contains_key(ptr) ==> final(self)@ == old(self)@ && (
            step matches Step::Done(done) && done.result is Err),
            old(self)@.segments.contains_key(ptr) && new_layout.spec_size() > 0 ==> !(
            step matches Step::Done(done) && done.result is Err),
    {
        proof {
            use_type_invariant(&*self);
            use_type_invariant(&old_layout);
            use_type_invariant(&new_layout);
            self@.lemma_realloc_keeps_wf(ptr, old_layout, new_layout);
            self@.lemma_realloc_fails_at_once_when_untracked(ptr, old_layout, new_layout);
        }
        let old_size: usize = old_layout.size();
        let new_size: usize = new_layout.size();
        let target = self.target_page_size(new_size);

        // Remove existing map entry
        let mut mmap = match self.map_remove(ptr) {
            Some(m) => m,
            None => {
                return Step::Done(Self::failed(None));
            },
        };

        if mmap.page_size() == target && mmap.stays(new_layout) {
            // Nothing to ask: the segment takes the new layout as it stands
            mmap.remap(new_layout, Err(MapError));
            self.resized(mmap, old_size)
        } else if mmap.page_size() == target && mmap.remap_request(new_layout).is_some() {
            // Try and do a reallocate
            Step::Pending(Task::Remapping { segment: mmap, old_size, new_layout })
        } else {
            if mmap.page_size() == target {
                // Failed to remap: no mapping stands for an empty segment
                self.add_failed_remap();
            }
            // Allocate new segment
            self.map(new_layout, target, Some(Source { segment: mmap, old_size }))
        }
    }

    /// Takes a segment for `layout` with pages of `page_size`: the empty
    /// segment at once for a layout of no bytes, else one for which a mapping
    /// is to be asked for.
    fn map(&mut self, layout: Layout, page_size: PageSize, source: Option<Source>) -> (step: Step)
        ensures
            (final(self)@, step) == old(self)@.map(layout, page_size, source),
            final(self)@.wf(),
    {
        proof {
            use_type_invariant(&*self);
        }
        if layout.size() == 0 {
            let empty = MMap::empty(layout, page_size, self.default_page);
            Step::Done(self.place(empty, source))
        } else {
            Step::Pending(Task::Mapping { layout, page_size, source })
        }
    }

    /// Ends an allocation or reallocation for which no mapping could be had.
    fn failed(source: Option<Source>) -> (done: Completion)
        ensures
            done == MMapperView::failed(source),
    {
        Completion {
            result: Err(AllocError),
            copy: None,
            retired: match source {
                Some(src) => Some(src.segment),
                None => None,
            },
            displaced: None,
        }
    }

    /// Puts a segment that was resized in place back in the table.
    fn resized(&mut self, mmap: MMap, old_size: usize) -> (step: Step)
        requires
            old(self)@.fits_segment(mmap),
        ensures
            (final(self)@, step) == old(self)@.resized(mmap, old_size),
            final(self)@.wf(),
    {
        let new_size: usize = mmap.size();
        if mmap.page_size() == PageSize::SizeDefault && new_size > old_size {
            // Add extra space as missed
            self.add_missed(new_size - old_size);
        }
        // Insert it back in to the hash map
        Step::Done(self.place(mmap, None))
    }

    /// Enters a segment that stands in the table, and says what is left to
    /// do for it.
    fn place(&mut self, mmap: MMap, source: Option<Source>) -> (done: Completion)
        requires
            old(self)@.fits_segment(mmap),
        ensures
            (final(self)@, done) == old(self)@.place(mmap, source),
            final(self)@.wf(),
    {
        // Get the region
        let ptr = mmap.fat_ptr();
        let size: usize = mmap.size();

        // Insert in to hash map
        let displaced = self.map_add(mmap);
        let fresh = displaced.is_none();
        match source {
            Some(src) => {
                let copy = if fresh && !src.segment.is_empty() && src.old_size > 0 && size > 0 {
                    // Copy data from old segment to new
                    Some(
                        CopyRequest {
                            src: src.segment.as_ptr(),
                            dst: ptr.addr,
                            len: if src.old_size < size {
                                src.old_size
                            } else {
                                size
                            },
                        },
                    )
                } else {
                    None
                };
                Completion {
                    result: if fresh {
                        Ok(ptr)
                    } else {
                        Err(AllocError)
                    },
                    copy,
                    retired: Some(src.segment),
                    displaced,
                }
            },
            None => Completion {
                result: if fresh {
                    Ok(ptr)
                } else {
                    Err(AllocError)
                },
                copy: None,
                retired: None,
                displaced,
            },
        }
    }

    /// Empties the table: every segment leaves it and is handed to the
    /// caller, who unmaps it. Each segment of the table is handed out once.
    pub fn drain(&mut self) -> (segments: Vec<MMap>)
        ensures
            final(self)@ == old(self)@.drain(),
            final(self)@.wf(),
            segments@.len() == old(self)@.segments.dom().len(),
            forall|i: int|
                0 <= i < segments@.len() ==> old(self)@.segments.contains_key(
                    (#[trigger] segments@[i]).spec_as_ptr(),
                ) && old(self)@.segments[segments@[i].spec_as_ptr()] == segments@[i],
            forall|i: int, j: int|
                0 <= i < j < segments@.len() ==> (#[trigger] segments@[i]).spec_as_ptr() != (
                #[trigger] segments@[j]).spec_as_ptr(),
            forall|ptr: usize| #[trigger]
                old(self)@.segments.contains_key(ptr) ==> segments@.contains(
                    old(self)@.segments[ptr],
                ),
    {
        proof {
            use_type_invariant(&*self);
        }
        let mut ptr_map = HashMap::new();
        std::mem::swap(&mut self.ptr_map, &mut ptr_map);
        let ghost table = ptr_map@;

        let mut ptrs: Vec<usize> = Vec::new();
        for ptr in it: ptr_map.keys()
            invariant
                it.seq() == spec_keys_iter(&ptr_map).remaining(),
                ptrs@.len() == it.index(),
                forall|i: int| 0 <= i < it.index() ==> ptrs@[i] == *(#[trigger] it.seq()[i]),
        {
            ptrs.push(*ptr);
        }
        let ghost keys = spec_keys_iter(&ptr_map).remaining();
        assert(ptrs@ =~= keys.unref());
        assert forall|i: int, j: int| 0 <= i < j < ptrs@.len() implies ptrs@[i] != ptrs@[j] by {
            assert(keys[i] != keys[j]);
        }

        let mut segments: Vec<MMap> = Vec::new();
        let mut done: usize = 0;
        while done < ptrs.len()
            invariant
                done <= ptrs@.len(),
                segments@.len() == done,
                ptrs@.no_duplicates(),
                ptrs@.to_set() == table.dom(),
                ptrs@.len() == table.dom().len(),
                forall|ptr: usize| #[trigger]
                    ptr_map@.contains_key(ptr) ==> table.contains_key(ptr) && ptr_map@[ptr]
                        == table[ptr],
                forall|i: int| done <= i < ptrs@.len() ==> ptr_map@.contains_key(#[trigger] ptrs@[i]),
                forall|i: int|
                    0 <= i < done ==> (#[trigger] segments@[i]) == table[ptrs@[i]]
                        && segments@[i].spec_as_ptr() == ptrs@[i],
                forall|ptr: usize| #[trigger]
                    table.contains_key(ptr) ==> table[ptr].spec_as_ptr() == ptr,
            decreases ptrs@.len() - done,
        {
            let ptr: usize = ptrs[done];
            match ptr_map.remove(&ptr) {
                Some(mmap) => {
                    segments.push(mmap);
                },
                None => {},
            }
            done += 1;
        }
        proof {
            assert forall|ptr: usize| #[trigger] table.contains_key(ptr) implies segments@.contains(
                table[ptr],
            ) by {
                let i = choose|i: int| 0 <= i < ptrs@.len() && ptrs@[i] == ptr;
                assert(segments@[i] == table[ptr]);
            }
        }
        segments
    }

    /// Returns statistics for the mapper
    pub fn stats(&self) -> (r: Result<HugeAllocatorStats, AllocError>)
        ensures
            r == self@.stats(),
            r is Ok <==> total_mapped(self@.segments, None) <= usize::MAX,
            r matches Ok(stats) ==> {
                &&& stats.default_alloc + stats.huge_alloc == stats.alloc
                &&& stats.default_mapped + stats.huge_mapped == stats.mapped
                &&& stats.default_segments + stats.huge_segments == stats.segments
                &&& stats.default_alloc <= stats.default_mapped
                &&& stats.huge_alloc <= stats.huge_mapped
                &&& stats.default_mapped as int % (self@.default_page.spec_bytes() as int) == 0
                &&& stats.huge_mapped as int % (HUGE_PAGE_BYTES as int) == 0
                &&& stats.segments == self@.segments.dom().len()
                &&& stats.alloc <= stats.mapped
                &&& stats.mapped == 0 ==> stats.efficiency == 100
                &&& stats.mapped != 0 ==> stats.efficiency == (stats.alloc * 100) / (
                stats.mapped as int)
            },
    {
        proof {
            use_type_invariant(self);
            if self@.stats() is Ok {
                self@.lemma_stats_add_up();
                self@.lemma_stats_efficiency();
            }
        }
        let mut alloc: usize = 0;
        let mut mapped_bytes: usize = 0;
        let mut segments: usize = 0;
        let mut default_alloc: usize = 0;
        let mut default_mapped: usize = 0;
        let mut default_segments: usize = 0;
        let mut huge_alloc: usize = 0;
        let mut huge_mapped: usize = 0;
        let mut huge_segments: usize = 0;

        let ghost table = self.ptr_map@;
        let ghost any: Option<PageSize> = None;
        let ghost default = Some(PageSize::SizeDefault);
        let ghost huge = Some(PageSize::Size2m);
        let ghost mut rest = table;
        let len: usize = self.ptr_map.len();

        for entry in it: self.ptr_map.iter()
            invariant
                table == self.ptr_map@,
                self@.wf(),
                any == None::<PageSize>,
                default == Some(PageSize::SizeDefault),
                huge == Some(PageSize::Size2m),
                it.seq() == spec_hash_map_iter(&self.ptr_map).remaining(),
                it.seq().no_duplicates(),
                it.seq().len() == len,
                rest.dom().finite(),
                rest.dom().len() == len - it.index(),
                forall|ptr: usize| #[trigger]
                    rest.contains_key(ptr) ==> table.contains_key(ptr) && rest[ptr] == table[ptr],
                forall|i: int|
                    it.index() <= i < it.seq().len() ==> rest.contains_key(
                        *(#[trigger] it.seq()[i]).0,
                    ),
                alloc + sum_segments(rest, requested(any)) == total_requested(table, any),
                mapped_bytes + sum_segments(rest, mapped(any)) == total_mapped(table, any),
                segments + sum_segments(rest, one(any)) == total_segments(table, any),
                default_alloc + sum_segments(rest, requested(default)) == total_requested(
                    table,
                    default,
                ),
                default_mapped + sum_segments(rest, mapped(default)) == total_mapped(
                    table,
                    default,
                ),
                default_segments + sum_segments(rest, one(default)) == total_segments(
                    table,
                    default,
                ),
                huge_alloc + sum_segments(rest, requested(huge)) == total_requested(table, huge),
                huge_mapped + sum_segments(rest, mapped(huge)) == total_mapped(table, huge),
                huge_segments + sum_segments(rest, one(huge)) == total_segments(table, huge),
                alloc <= mapped_bytes,
                segments == it.index(),
                default_alloc + huge_alloc == alloc,
                default_mapped + huge_mapped == mapped_bytes,
                default_segments + huge_segments == segments,
        {
            let mmap = entry.1;
            let ghost ptr = *entry.0;
            proof {
                assert forall|i: int| it.index() + 1 <= i < it.seq().len() implies rest.remove(
                    ptr,
                ).contains_key(*(#[trigger] it.seq()[i]).0) by {
                    if *it.seq()[i].0 == ptr {
                        assert(it.seq()[i] == it.seq()[it.index()]);
                    }
                }
                lemma_sum_remove(rest, requested(any), ptr);
                lemma_sum_remove(rest, mapped(any), ptr);
                lemma_sum_remove(rest, one(any), ptr);
                lemma_sum_remove(rest, requested(default), ptr);
                lemma_sum_remove(rest, mapped(default), ptr);
                lemma_sum_remove(rest, one(default), ptr);
                lemma_sum_remove(rest, requested(huge), ptr);
                lemma_sum_remove(rest, mapped(huge), ptr);
                lemma_sum_remove(rest, one(huge), ptr);
                rest = rest.remove(ptr);
            }
            let size: usize = mmap.size();
            let alloc_size: usize = mmap.alloc_size();
            mapped_bytes = match mapped_bytes.checked_add(alloc_size) {
                Some(sum) => sum,
                None => {
                    return Err(AllocError);
                },
            };
            alloc += size;
            segments += 1;

            match mmap.page_size() {
                PageSize::SizeDefault => {
                    default_alloc += size;
                    default_mapped += alloc_size;
                    default_segments += 1;
                },
                PageSize::Size2m => {
                    huge_alloc += size;
                    huge_mapped += alloc_size;
                    huge_segments += 1;
                },
            }
        }

        let efficiency: usize = if mapped_bytes == 0 {
            100
        } else {
            assert((alloc * 100) / (mapped_bytes as int) <= 100) by (nonlinear_arith)
                requires
                    0 <= alloc <= mapped_bytes,
                    0 < mapped_bytes,
            ;
            ((alloc as u128 * 100) / (mapped_bytes as u128)) as usize
        };

        Ok(
            HugeAllocatorStats {
                alloc,
                mapped: mapped_bytes,
                segments,
                default_alloc,
                default_mapped,
                default_segments,
                huge_alloc,
                huge_mapped,
                huge_segments,
                missed_allocs: self.stats.missed_allocs,
                missed_mb: self.stats.missed_mb,
                missed_bytes: self.stats.missed_bytes,
                remaps_failed: self.stats.remaps_failed,
                efficiency,
            },
        )
    }

    /// Returns the target page size for a given allocation size
    pub fn target_page_size(&self, size: usize) -> (r: PageSize)
        ensures
            r == self@.target_page_size(size),
    {
        // Test for 2mb page size
        if (size as u128 * 100) / (HUGE_PAGE_BYTES as u128) >= self.threshold_pct as u128 {
            return PageSize::Size2m;
        }
        PageSize::SizeDefault
    }

    /// Removes an entry from the pointer map
    fn map_remove(&mut self, ptr: usize) -> (r: Option<MMap>)
        ensures
            (final(self)@, r) == old(self)@.map_remove(ptr),
            final(self)@.wf(),
            r matches Some(mmap) ==> old(self)@.fits_segment(mmap),
    {
        proof {
            use_type_invariant(&*self);
        }
        // Remove map entry. The table is taken out while it changes, so that
        // the tracker is whole whenever the table's own code could unwind.
        let mut ptr_map = HashMap::new();
        std::mem::swap(&mut self.ptr_map, &mut ptr_map);
        let removed = ptr_map.remove(&ptr);
        self.ptr_map = ptr_map;
        proof {
            if !old(self)@.segments.contains_key(ptr) {
                assert(self.ptr_map@ =~= old(self).ptr_map@);
            }
        }
        removed
    }

    /// Adds an entry to the pointer map, and returns the entry that it took
    /// the place of
    fn map_add(&mut self, mmap: MMap) -> (displaced: Option<MMap>)
        requires
            old(self)@.fits_segment(mmap),
        ensures
            (final(self)@, displaced) == old(self)@.map_add(mmap),
            final(self)@.wf(),
    {
        proof {
            use_type_invariant(&*self);
            use_type_invariant(&mmap);
        }
        // Add map entry, with the table taken out while it changes
        let mut ptr_map = HashMap::new();
        std::mem::swap(&mut self.ptr_map, &mut ptr_map);
        let displaced = ptr_map.insert(mmap.as_ptr(), mmap);
        self.ptr_map = ptr_map;
        displaced
    }

    /// Add statistics about a failed resize in place
    fn add_failed_remap(&mut self)
        ensures
            final(self)@ == old(self)@.add_failed_remap(),
            final(self)@.wf(),
    {
        proof {
            use_type_invariant(&*self);
        }
        self.stats = MMapperStats {
            missed_allocs: self.stats.missed_allocs,
            missed_bytes: self.stats.missed_bytes,
            missed_mb: self.stats.missed_mb,
            remaps_failed: self.stats.remaps_failed.saturating_add(1),
        };
    }

    /// Add statistics about missed huge allocations
    fn add_missed(&mut self, bytes: usize)
        requires
            bytes <= max_request_size(),
        ensures
            final(self)@ == old(self)@.add_missed(bytes),
            final(self)@.wf(),
    {
        proof {
            use_type_invariant(&*self);
        }
        let missed_allocs: usize = self.stats.missed_allocs.saturating_add(1);
        let mut missed_bytes: usize = self.stats.missed_bytes + bytes;
        let mut missed_mb: usize = self.stats.missed_mb;

        if missed_bytes > MEGABYTE {
            let mb: usize = missed_bytes / MEGABYTE;
            missed_bytes -= mb * MEGABYTE;
            missed_mb = missed_mb.saturating_add(mb);
        }
        self.stats = MMapperStats {
            missed_allocs,
            missed_bytes,
            missed_mb,
            remaps_failed: self.stats.remaps_failed,
        };
    }
}

} // verus!
