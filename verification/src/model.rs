//! The state of a tracker and the steps that it takes, and what holds of
//! them.

use vstd::prelude::*;

use crate::layout::{FatPtr, Layout};
use crate::mmap::{
    lemma_alloc_size_is_least_multiple, spec_calc_alloc_size, MMap, MapError, UnmapRequest,
};
use crate::mmapper::{
    AllocError, Completion, CopyRequest, MMapperStats, Request, Source, Step, Task, MEGABYTE,
};
use crate::page::{DefaultPageSize, PageSize, HUGE_PAGE_BYTES};
use crate::stats::{
    lemma_mapped_is_whole_pages, lemma_requested_within_mapped, lemma_total_segments_is_len,
    lemma_totals_split_by_page_size, total_mapped, total_requested, total_segments,
};
use crate::HugeAllocatorStats;

verus! {

/// The state of a tracker.
pub struct MMapperView {
    /// Threshold percentage to try and use huge pages
    pub threshold_pct: usize,
    /// The platform's default page size
    pub default_page: DefaultPageSize,
    /// The tracked segments, each under its base address
    pub segments: Map<usize, MMap>,
    /// The running counters
    pub stats: MMapperStats,
}

impl MMapperView {
    /// A tracker's table is finite and holds each segment under its own base
    /// address, every segment stands on pages of the tracker's platform, and
    /// the byte counter never holds more than a megabyte.
    pub open spec fn wf(self) -> bool {
        &&& self.default_page.wf()
        &&& self.segments.dom().finite()
        &&& forall|ptr: usize| #[trigger]
            self.segments.contains_key(ptr) ==> self.segments[ptr].wf()
                && self.segments[ptr].spec_as_ptr() == ptr && self.fits_segment(
                self.segments[ptr],
            )
        &&& self.stats.missed_bytes <= MEGABYTE
    }

    /// Whether `mmap` stands on pages of the tracker's platform: the pages
    /// of a segment on default pages have the tracker's default page size.
    pub open spec fn fits_segment(self, mmap: MMap) -> bool {
        mmap.wf() && mmap.spec_page_bytes() == mmap.spec_page_size().spec_bytes(&self.default_page)
    }

    /// Whether `task` is one that the tracker can resume: its segments stand
    /// on pages of the tracker's platform, and its request is one that can
    /// be asked of the operating system. Every task that the tracker hands
    /// out is one.
    pub open spec fn fits(self, task: Task) -> bool {
        match task {
            Task::Mapping { layout, page_size, source } => {
                &&& layout.wf()
                &&& layout.spec_size() > 0
                &&& source matches Some(src) ==> self.fits_segment(src.segment)
            },
            Task::Remapping { segment, old_size, new_layout } => {
                &&& new_layout.wf()
                &&& self.fits_segment(segment)
                &&& segment.spec_remap_request(new_layout) is Some
            },
        }
    }

    /// The state of a new tracker.
    pub open spec fn new(threshold_pct: usize, default_page: DefaultPageSize) -> MMapperView {
        MMapperView {
            threshold_pct,
            default_page,
            segments: Map::empty(),
            stats: MMapperStats::zero(),
        }
    }

    /// The page size to try for an allocation of `size` bytes: huge pages
    /// when the size is at least the threshold percentage of a huge page.
    pub open spec fn target_page_size(self, size: usize) -> PageSize {
        if (size * 100) / (HUGE_PAGE_BYTES as int) >= self.threshold_pct {
            PageSize::Size2m
        } else {
            PageSize::SizeDefault
        }
    }

    /// The state after one more allocation of `bytes` bytes missed huge pages.
    pub open spec fn add_missed(self, bytes: usize) -> MMapperView {
        MMapperView { stats: self.stats.with_missed(bytes), ..self }
    }

    /// The state after one more resize in place failed.
    pub open spec fn add_failed_remap(self) -> MMapperView {
        MMapperView { stats: self.stats.with_failed_remap(), ..self }
    }

    /// The state after `mmap` entered the table, and the segment that stood
    /// at its address before, if there was one.
    pub open spec fn map_add(self, mmap: MMap) -> (MMapperView, Option<MMap>) {
        (
            MMapperView { segments: self.segments.insert(mmap.spec_as_ptr(), mmap), ..self },
            if self.segments.contains_key(mmap.spec_as_ptr()) {
                Some(self.segments[mmap.spec_as_ptr()])
            } else {
                None
            },
        )
    }

    /// The state after the segment at `ptr` left the table, and that segment,
    /// if there was one.
    pub open spec fn map_remove(self, ptr: usize) -> (MMapperView, Option<MMap>) {
        if self.segments.contains_key(ptr) {
            (
                MMapperView { segments: self.segments.remove(ptr), ..self },
                Some(self.segments[ptr]),
            )
        } else {
            (self, None)
        }
    }

    /// Deallocation: the segment at `ptr` leaves the table and is handed out
    /// to be unmapped; an address that is not tracked is an error and changes
    /// nothing.
    pub open spec fn dealloc(self, ptr: usize) -> (MMapperView, Result<MMap, AllocError>) {
        match self.map_remove(ptr).1 {
            Some(mmap) => (self.map_remove(ptr).0, Ok(mmap)),
            None => (self, Err(AllocError)),
        }
    }

    /// The step that a segment for `layout` with pages of `page_size` takes:
    /// for a layout of no bytes the segment is empty, nothing is asked of the
    /// operating system, and the empty segment enters the table at once;
    /// else a mapping is to be asked for.
    pub open spec fn map(self, layout: Layout, page_size: PageSize, source: Option<Source>) -> (
        MMapperView,
        Step,
    ) {
        if layout.spec_size() == 0 {
            let (next, done) = self.place(
                MMap::spec_mapped(layout, page_size, self.default_page, 0),
                source,
            );
            (next, Step::Done(done))
        } else {
            (self, Step::Pending(Task::Mapping { layout, page_size, source }))
        }
    }

    /// Allocation takes a segment with pages of the target page size: an
    /// empty one at once for a layout of no bytes, else one for which a
    /// mapping is to be asked for.
    pub open spec fn allocate(self, layout: Layout) -> (MMapperView, Step) {
        self.map(layout, self.target_page_size(layout.spec_size()), None)
    }

    /// What `task` asks of the operating system, for a task that the tracker
    /// can resume: the pages of its segment, or the resize of its segment.
    pub open spec fn request(self, task: Task) -> Request {
        match task {
            Task::Mapping { layout, page_size, source } => Request::Mmap(
                MMap::spec_map_request(layout, page_size, self.default_page)->Some_0,
            ),
            Task::Remapping { segment, old_size, new_layout } => Request::Mremap(
                segment.spec_remap_request(new_layout)->Some_0,
            ),
        }
    }

    /// The end of an allocation or reallocation whose segment `mmap` stands:
    /// it enters the table. Where no other segment stood at its address, its
    /// region is the result, and the bytes that the user had in `source` and
    /// that fit the new size are to be copied over, if there are any: nothing
    /// is copied out of an empty segment or into one. Where one did, the
    /// result is an error and that segment is handed out. `source` is handed
    /// out either way.
    pub open spec fn place(self, mmap: MMap, source: Option<Source>) -> (MMapperView, Completion) {
        let (next, displaced) = self.map_add(mmap);
        (
            next,
            Completion {
                result: if displaced is None {
                    Ok(mmap.spec_fat_ptr())
                } else {
                    Err(AllocError)
                },
                copy: match source {
                    Some(src) if displaced is None && !src.segment.spec_is_empty() && src.old_size
                        > 0 && mmap.spec_size() > 0 => Some(
                        CopyRequest {
                            src: src.segment.spec_as_ptr(),
                            dst: mmap.spec_as_ptr(),
                            len: if src.old_size < mmap.spec_size() {
                                src.old_size
                            } else {
                                mmap.spec_size()
                            },
                        },
                    ),
                    _ => None,
                },
                retired: match source {
                    Some(src) => Some(src.segment),
                    None => None,
                },
                displaced,
            },
        )
    }

    /// The end of a reallocation whose segment was resized in place to
    /// `mmap`: a segment on default pages that grew beyond `old_size` counts
    /// the growth as missed, and the segment enters the table again.
    pub open spec fn resized(self, mmap: MMap, old_size: usize) -> (MMapperView, Step) {
        let counted = if mmap.spec_page_size() == PageSize::SizeDefault && mmap.spec_size()
            > old_size {
            self.add_missed((mmap.spec_size() - old_size) as usize)
        } else {
            self
        };
        let (next, done) = counted.place(mmap, None);
        (next, Step::Done(done))
    }

    /// The end of an allocation or reallocation for which no mapping could be
    /// had: an error, and `source` is handed out.
    pub open spec fn failed(source: Option<Source>) -> Completion {
        Completion {
            result: Err(AllocError),
            copy: None,
            retired: match source {
                Some(src) => Some(src.segment),
                None => None,
            },
            displaced: None,
        }
    }

    /// The state and the next step after the operating system answered
    /// `outcome` to the request of `task`.
    ///
    /// A mapping that stands becomes a segment of the table; it counts as
    /// missed where it stands on default pages although the target was huge
    /// pages. A refused mapping is tried again on default pages if it was
    /// tried on huge pages, and else ends the task with an error.
    ///
    /// A resize that went through puts the segment back in the table. A
    /// refused resize is counted, and a new mapping is asked for in its place.
    pub open spec fn resume(self, task: Task, outcome: Result<usize, MapError>) -> (
        MMapperView,
        Step,
    ) {
        match task {
            Task::Mapping { layout, page_size, source } => match MMap::spec_map(
                layout,
                page_size,
                self.default_page,
                outcome,
            ) {
                Ok(mmap) => {
                    let counted = if page_size == PageSize::SizeDefault && self.target_page_size(
                        layout.spec_size(),
                    ) == PageSize::Size2m {
                        self.add_missed(layout.spec_size())
                    } else {
                        self
                    };
                    let (next, done) = counted.place(mmap, source);
                    (next, Step::Done(done))
                },
                Err(_) => if page_size == PageSize::Size2m {
                    (
                        self,
                        Step::Pending(
                            Task::Mapping { layout, page_size: PageSize::SizeDefault, source },
                        ),
                    )
                } else {
                    (self, Step::Done(Self::failed(source)))
                },
            },
            Task::Remapping { segment, old_size, new_layout } => if segment.spec_remap_ok(
                new_layout,
                outcome,
            ) {
                self.resized(segment.spec_remapped(new_layout, outcome), old_size)
            } else {
                self.add_failed_remap().map(
                    new_layout,
                    self.target_page_size(new_layout.spec_size()),
                    Some(Source { segment, old_size }),
                )
            },
        }
    }

    /// Reallocation: the segment at `ptr` leaves the table; an address that
    /// is not tracked is an error and changes nothing.
    ///
    /// A segment that serves the new layout as it stands, on pages of the
    /// target page size for the new size, takes the new layout at once. One
    /// on pages of the target page size whose allocation size changes from
    /// some pages to some pages is resized in place by the operating system.
    /// In every other case a new segment is taken for the new layout, as an
    /// allocation takes one, and the old segment is the source of its
    /// contents: where the page sizes differ, where the old segment is
    /// empty, and where the new one is. Where the page sizes are the same,
    /// the resize in place has then failed, and is counted as failed: no
    /// mapping stands that could be resized from or to an empty segment.
    pub open spec fn realloc(self, ptr: usize, old_layout: Layout, new_layout: Layout) -> (
        MMapperView,
        Step,
    ) {
        let (rest, removed) = self.map_remove(ptr);
        let target = self.target_page_size(new_layout.spec_size());
        match removed {
            None => (self, Step::Done(Self::failed(None))),
            Some(mmap) => if mmap.spec_page_size() == target && mmap.spec_stays(new_layout) {
                rest.resized(mmap.spec_remapped(new_layout, Err(MapError)), old_layout.spec_size())
            } else if mmap.spec_page_size() == target && mmap.spec_remap_request(new_layout)
                is Some {
                (
                    rest,
                    Step::Pending(
                        Task::Remapping {
                            segment: mmap,
                            old_size: old_layout.spec_size(),
                            new_layout,
                        },
                    ),
                )
            } else {
                let counted = if mmap.spec_page_size() == target {
                    rest.add_failed_remap()
                } else {
                    rest
                };
                counted.map(
                    new_layout,
                    target,
                    Some(Source { segment: mmap, old_size: old_layout.spec_size() }),
                )
            },
        }
    }

    /// The state after every segment left the table.
    pub open spec fn drain(self) -> MMapperView {
        MMapperView { segments: Map::empty(), ..self }
    }

    /// The percentage of the mapped bytes that were requested; all of them
    /// where nothing is mapped.
    pub open spec fn efficiency(requested: nat, mapped: nat) -> nat {
        if mapped == 0 {
            100
        } else {
            (requested * 100) / mapped
        }
    }

    /// The statistics of the tracker: the totals over its table, for all
    /// page sizes and for each, beside its running counters and its
    /// efficiency. They are an error where the mapped bytes or the segments
    /// are more than a `usize` can hold.
    pub open spec fn stats(self) -> Result<HugeAllocatorStats, AllocError> {
        let default = Some(PageSize::SizeDefault);
        let huge = Some(PageSize::Size2m);
        if total_mapped(self.segments, None) > usize::MAX || self.segments.dom().len()
            > usize::MAX {
            Err(AllocError)
        } else {
            Ok(
                HugeAllocatorStats {
                    alloc: total_requested(self.segments, None) as usize,
                    mapped: total_mapped(self.segments, None) as usize,
                    segments: total_segments(self.segments, None) as usize,
                    default_alloc: total_requested(self.segments, default) as usize,
                    default_mapped: total_mapped(self.segments, default) as usize,
                    default_segments: total_segments(self.segments, default) as usize,
                    huge_alloc: total_requested(self.segments, huge) as usize,
                    huge_mapped: total_mapped(self.segments, huge) as usize,
                    huge_segments: total_segments(self.segments, huge) as usize,
                    missed_allocs: self.stats.missed_allocs,
                    missed_mb: self.stats.missed_mb,
                    missed_bytes: self.stats.missed_bytes,
                    remaps_failed: self.stats.remaps_failed,
                    efficiency: Self::efficiency(
                        total_requested(self.segments, None),
                        total_mapped(self.segments, None),
                    ) as usize,
                },
            )
        }
    }

    /// Every step leaves the tracker well formed; the task that is left to
    /// perform is one that the tracker can resume, and the segments that are
    /// handed out are well formed.
    pub proof fn lemma_resume_keeps_wf(self, task: Task, outcome: Result<usize, MapError>)
        requires
            self.wf(),
            self.fits(task),
        ensures
            self.resume(task, outcome).0.wf(),
            self.resume(task, outcome).0.default_page == self.default_page,
            self.resume(task, outcome).0.threshold_pct == self.threshold_pct,
            self.resume(task, outcome).1 matches Step::Pending(next) ==> self.resume(
                task,
                outcome,
            ).0.fits(next),
            self.resume(task, outcome).1 matches Step::Done(done) ==> {
                &&& done.retired matches Some(mmap) ==> mmap.wf()
                &&& done.displaced matches Some(mmap) ==> mmap.wf()
            },
    {
        match task {
            Task::Mapping { layout, page_size, source } => {
                lemma_alloc_size_is_least_multiple(
                    layout.spec_size() as int,
                    page_size.spec_bytes(&self.default_page) as int,
                );
            },
            Task::Remapping { segment, old_size, new_layout } => {
                lemma_alloc_size_is_least_multiple(
                    new_layout.spec_size() as int,
                    segment.spec_page_bytes() as int,
                );
            },
        }
    }

    /// Allocation leaves the tracker well formed, and the task that is left
    /// to perform is one that the tracker can resume.
    pub proof fn lemma_allocate_keeps_wf(self, layout: Layout)
        requires
            self.wf(),
            layout.wf(),
        ensures
            self.allocate(layout).0.wf(),
            self.allocate(layout).0.default_page == self.default_page,
            self.allocate(layout).0.threshold_pct == self.threshold_pct,
            self.allocate(layout).1 matches Step::Pending(next) ==> self.allocate(layout).0.fits(
                next,
            ),
            self.allocate(layout).1 matches Step::Done(done) ==> {
                &&& done.retired is None
                &&& done.displaced matches Some(mmap) ==> mmap.wf()
            },
    {
        lemma_alloc_size_is_least_multiple(
            layout.spec_size() as int,
            self.target_page_size(layout.spec_size()).spec_bytes(&self.default_page) as int,
        );
    }

    /// Reallocation leaves the tracker well formed; the task that is left to
    /// perform is one that the tracker can resume, and the segments that are
    /// handed out are well formed.
    pub proof fn lemma_realloc_keeps_wf(self, ptr: usize, old_layout: Layout, new_layout: Layout)
        requires
            self.wf(),
            old_layout.wf(),
            new_layout.wf(),
        ensures
            self.realloc(ptr, old_layout, new_layout).0.wf(),
            self.realloc(ptr, old_layout, new_layout).0.default_page == self.default_page,
            self.realloc(ptr, old_layout, new_layout).0.threshold_pct == self.threshold_pct,
            self.realloc(ptr, old_layout, new_layout).1 matches Step::Pending(next) ==> self.realloc(
                ptr,
                old_layout,
                new_layout,
            ).0.fits(next),
            self.realloc(ptr, old_layout, new_layout).1 matches Step::Done(done) ==> {
                &&& done.retired matches Some(mmap) ==> mmap.wf()
                &&& done.displaced matches Some(mmap) ==> mmap.wf()
            },
    {
        if self.segments.contains_key(ptr) {
            lemma_alloc_size_is_least_multiple(
                new_layout.spec_size() as int,
                self.segments[ptr].spec_page_bytes() as int,
            );
            lemma_alloc_size_is_least_multiple(
                new_layout.spec_size() as int,
                self.target_page_size(new_layout.spec_size()).spec_bytes(&self.default_page) as int,
            );
            lemma_alloc_size_is_least_multiple(
                self.segments[ptr].spec_size() as int,
                self.segments[ptr].spec_page_bytes() as int,
            );
        }
    }

    /// An allocation for no bytes asks nothing of the operating system: it
    /// ends at once with the empty segment, which stands at the null address
    /// with a mapped size of zero on pages of the target page size. The
    /// segment enters the table under the null address, and its region is
    /// the result unless an empty segment stands there already. Nothing
    /// counts as missed.
    pub proof fn lemma_allocate_nothing_asks_nothing(self, layout: Layout)
        requires
            self.wf(),
            layout.wf(),
            layout.spec_size() == 0,
        ensures
            ({
                let (next, step) = self.allocate(layout);
                let empty = MMap::spec_mapped(
                    layout,
                    self.target_page_size(0),
                    self.default_page,
                    0,
                );
                &&& step matches Step::Done(done)
                &&& empty.spec_is_empty()
                &&& empty.spec_fat_ptr() == FatPtr { addr: 0, len: 0 }
                &&& empty.spec_unmap_request() is None
                &&& next.segments == self.segments.insert(0, empty)
                &&& next.stats == self.stats
                &&& done.result is Ok <==> !self.segments.contains_key(0)
                &&& done.result is Ok ==> done.result == Ok::<FatPtr, AllocError>(
                    FatPtr { addr: 0, len: 0 },
                )
                &&& done.copy is None
                &&& done.retired is None
            }),
    {
        lemma_alloc_size_is_least_multiple(
            0,
            self.target_page_size(0).spec_bytes(&self.default_page) as int,
        );
    }

    /// An allocation for some bytes asks for a mapping of whole pages of the
    /// target page size, which covers the bytes.
    pub proof fn lemma_allocate_asks_for_whole_pages(self, layout: Layout)
        requires
            self.wf(),
            layout.wf(),
            layout.spec_size() > 0,
        ensures
            ({
                let target = self.target_page_size(layout.spec_size());
                let task = Task::Mapping { layout, page_size: target, source: None };
                &&& self.allocate(layout) == (self, Step::Pending(task))
                &&& self.request(task) matches Request::Mmap(request)
                &&& request.length >= layout.spec_size()
                &&& request.length > 0
                &&& request.length % target.spec_bytes(&self.default_page) == 0
                &&& request.flags == target.spec_map_flags()
                &&& request.read && request.write
            }),
    {
        lemma_alloc_size_is_least_multiple(
            layout.spec_size() as int,
            self.target_page_size(layout.spec_size()).spec_bytes(&self.default_page) as int,
        );
    }

    /// A region that a mapping task hands out holds the requested size, is a
    /// whole number of pages of the page size that the mapping was made
    /// with, and starts where the operating system put the mapping; its
    /// segment stands in the table under that address, and no segment stood
    /// there before.
    pub proof fn lemma_allocated_region_holds_request(
        self,
        layout: Layout,
        page_size: PageSize,
        source: Option<Source>,
        outcome: Result<usize, MapError>,
    )
        requires
            self.wf(),
            self.fits(Task::Mapping { layout, page_size, source }),
            self.resume(Task::Mapping { layout, page_size, source }, outcome).1 matches Step::Done(
                done,
            ) && done.result is Ok,
        ensures
            ({
                let (next, step) = self.resume(Task::Mapping { layout, page_size, source }, outcome);
                let region = step->Done_0.result->Ok_0;
                &&& outcome == Ok::<usize, MapError>(region.addr)
                &&& region.len >= layout.spec_size()
                &&& region.len % page_size.spec_bytes(&self.default_page) == 0
                &&& region.len - layout.spec_size() < page_size.spec_bytes(&self.default_page)
                &&& !self.segments.contains_key(region.addr)
                &&& next.segments == self.segments.insert(
                    region.addr,
                    MMap::spec_mapped(layout, page_size, self.default_page, region.addr),
                )
                &&& next.segments[region.addr].spec_fat_ptr() == region
                &&& next.segments[region.addr].spec_page_size() == page_size
                &&& next.segments[region.addr].spec_layout() == layout
            }),
    {
        lemma_alloc_size_is_least_multiple(
            layout.spec_size() as int,
            page_size.spec_bytes(&self.default_page) as int,
        );
    }

    /// An allocation for some bytes tries huge pages first exactly when the
    /// requested size is at least the threshold percentage of a huge page,
    /// falls back to default pages when huge pages are refused, and gives up
    /// when default pages are refused.
    pub proof fn lemma_allocate_falls_back_once(self, layout: Layout, refusal: MapError)
        requires
            self.wf(),
            layout.wf(),
            layout.spec_size() > 0,
        ensures
            ({
                let target = self.target_page_size(layout.spec_size());
                let first = Task::Mapping { layout, page_size: target, source: None };
                let second = Task::Mapping {
                    layout,
                    page_size: PageSize::SizeDefault,
                    source: None,
                };
                &&& self.allocate(layout) == (self, Step::Pending(first))
                &&& target == PageSize::Size2m ==> self.resume(first, Err(refusal)) == (
                    self,
                    Step::Pending(second),
                )
                &&& target == PageSize::SizeDefault ==> self.resume(first, Err(refusal)) == (
                    self,
                    Step::Done(Self::failed(None)),
                )
                &&& self.resume(second, Err(refusal)) == (self, Step::Done(Self::failed(None)))
            }),
    {
    }

    /// A reallocation of a segment that stays on its page size and keeps its
    /// mapped size ends at once: the segment stays at its address with the
    /// new layout, nothing is copied and nothing is released. The mapped size
    /// of a segment is that of its layout, so this is so whenever the old and
    /// the new layout round to the same mapped size.
    pub proof fn lemma_realloc_within_mapped_size_stays(
        self,
        ptr: usize,
        old_layout: Layout,
        new_layout: Layout,
    )
        requires
            self.wf(),
            old_layout.wf(),
            new_layout.wf(),
            self.segments.contains_key(ptr),
            self.segments[ptr].spec_page_size() == self.target_page_size(new_layout.spec_size()),
            self.segments[ptr].spec_alloc_size() == spec_calc_alloc_size(
                new_layout.spec_size() as int,
                self.segments[ptr].spec_page_bytes() as int,
            ),
        ensures
            ({
                let (next, step) = self.realloc(ptr, old_layout, new_layout);
                &&& step matches Step::Done(done)
                &&& done.result == Ok::<FatPtr, AllocError>(self.segments[ptr].spec_fat_ptr())
                &&& done.copy is None
                &&& done.retired is None
                &&& done.displaced is None
                &&& next.segments.dom() == self.segments.dom()
                &&& next.segments[ptr].spec_layout() == new_layout
                &&& next.segments[ptr].spec_fat_ptr() == self.segments[ptr].spec_fat_ptr()
                &&& next.segments[ptr].spec_page_size() == self.segments[ptr].spec_page_size()
            }),
    {
        lemma_alloc_size_is_least_multiple(
            new_layout.spec_size() as int,
            self.segments[ptr].spec_page_bytes() as int,
        );
        let (next, step) = self.realloc(ptr, old_layout, new_layout);
        assert(next.segments.dom() =~= self.segments.dom());
    }

    /// A reallocation of an address that is not tracked ends at once with an
    /// error, and nothing changes. One of a tracked address ends at once
    /// with an error only where the new layout has no bytes and an empty
    /// segment stands already. A tracked segment leaves the table until the
    /// reallocation ends.
    pub proof fn lemma_realloc_fails_at_once_when_untracked(
        self,
        ptr: usize,
        old_layout: Layout,
        new_layout: Layout,
    )
        requires
            self.wf(),
            old_layout.wf(),
            new_layout.wf(),
        ensures
            ({
                let (next, step) = self.realloc(ptr, old_layout, new_layout);
                &&& !self.segments.contains_key(ptr) ==> next == self && step == Step::Done(
                    Self::failed(None),
                )
                &&& (step matches Step::Done(done) && done.result is Err) ==> {
                    ||| !self.segments.contains_key(ptr)
                    ||| new_layout.spec_size() == 0 && ptr != 0 && self.segments.contains_key(0)
                }
                &&& step is Pending ==> next.segments == self.segments.remove(ptr)
                &&& step matches Step::Pending(Task::Remapping { .. }) ==> next
                    == self.map_remove(ptr).0
            }),
    {
        if self.segments.contains_key(ptr) {
            lemma_alloc_size_is_least_multiple(
                new_layout.spec_size() as int,
                self.segments[ptr].spec_page_bytes() as int,
            );
            lemma_alloc_size_is_least_multiple(
                new_layout.spec_size() as int,
                self.target_page_size(new_layout.spec_size()).spec_bytes(&self.default_page) as int,
            );
        }
    }

    /// A resize in place that cannot be asked of the operating system has
    /// failed, and is counted: where a segment on pages of the target page
    /// size is empty or is to become empty, and does not serve the new layout
    /// as it stands, the counter of failed resizes grows by one, and a new
    /// segment is taken for the new layout as after a refused resize. Where
    /// the page sizes differ no resize is tried, and none is counted.
    pub proof fn lemma_resize_not_to_be_asked_is_counted(
        self,
        ptr: usize,
        old_layout: Layout,
        new_layout: Layout,
    )
        requires
            self.wf(),
            old_layout.wf(),
            new_layout.wf(),
            self.segments.contains_key(ptr),
            !self.segments[ptr].spec_stays(new_layout),
            self.segments[ptr].spec_remap_request(new_layout) is None,
        ensures
            ({
                let target = self.target_page_size(new_layout.spec_size());
                let mmap = self.segments[ptr];
                let (rest, removed) = self.map_remove(ptr);
                let (next, step) = self.realloc(ptr, old_layout, new_layout);
                let source = Some(Source { segment: mmap, old_size: old_layout.spec_size() });
                &&& mmap.spec_is_empty() || new_layout.spec_size() == 0
                &&& !mmap.spec_remap_ok(new_layout, Ok(ptr))
                &&& mmap.spec_page_size() == target ==> {
                    &&& (next, step) == rest.add_failed_remap().map(new_layout, target, source)
                    &&& next.stats == self.stats.with_failed_remap()
                    &&& self.stats.remaps_failed < usize::MAX ==> next.stats.remaps_failed
                        == self.stats.remaps_failed + 1
                }
                &&& mmap.spec_page_size() != target ==> {
                    &&& (next, step) == rest.map(new_layout, target, source)
                    &&& next.stats == self.stats
                }
            }),
    {
        lemma_alloc_size_is_least_multiple(
            new_layout.spec_size() as int,
            self.segments[ptr].spec_page_bytes() as int,
        );
        lemma_alloc_size_is_least_multiple(
            new_layout.spec_size() as int,
            self.target_page_size(new_layout.spec_size()).spec_bytes(&self.default_page) as int,
        );
    }

    /// A resize that the operating system made ends the reallocation: the
    /// segment stands at the address that the system gave it, with the new
    /// layout and its mapped size, on the pages it stood on; nothing is
    /// copied and nothing is released. The growth of a segment on default
    /// pages counts as missed.
    pub proof fn lemma_resize_made_ends_in_place(
        self,
        segment: MMap,
        old_size: usize,
        new_layout: Layout,
        moved_to: usize,
    )
        requires
            self.wf(),
            self.fits(Task::Remapping { segment, old_size, new_layout }),
            !self.segments.contains_key(moved_to),
        ensures
            ({
                let task = Task::Remapping { segment, old_size, new_layout };
                let (next, step) = self.resume(task, Ok(moved_to));
                let grew = segment.spec_page_size() == PageSize::SizeDefault
                    && new_layout.spec_size() > old_size;
                &&& step matches Step::Done(done)
                &&& done.result == Ok::<FatPtr, AllocError>(
                    FatPtr { addr: moved_to, len: segment.spec_remap_size(new_layout) },
                )
                &&& done.copy is None
                &&& done.retired is None
                &&& done.displaced is None
                &&& next.segments == self.segments.insert(
                    moved_to,
                    segment.spec_remapped(new_layout, Ok(moved_to)),
                )
                &&& next.segments[moved_to].spec_layout() == new_layout
                &&& next.segments[moved_to].spec_page_size() == segment.spec_page_size()
                &&& next.segments[moved_to].spec_alloc_size() >= new_layout.spec_size()
                &&& next.stats == if grew {
                    self.stats.with_missed((new_layout.spec_size() - old_size) as usize)
                } else {
                    self.stats
                }
            }),
    {
        lemma_alloc_size_is_least_multiple(
            new_layout.spec_size() as int,
            segment.spec_page_bytes() as int,
        );
    }

    /// A resize that the operating system refused is counted, leaves the
    /// table as it is, and asks for a new mapping with pages of the target
    /// page size, to which the contents of the segment move.
    pub proof fn lemma_resize_refused_asks_for_a_mapping(
        self,
        segment: MMap,
        old_size: usize,
        new_layout: Layout,
        refusal: MapError,
    )
        requires
            self.wf(),
            self.fits(Task::Remapping { segment, old_size, new_layout }),
        ensures
            ({
                let task = Task::Remapping { segment, old_size, new_layout };
                let (next, step) = self.resume(task, Err(refusal));
                &&& next.segments == self.segments
                &&& next.stats == self.stats.with_failed_remap()
                &&& self.stats.remaps_failed < usize::MAX ==> next.stats.remaps_failed
                    == self.stats.remaps_failed + 1
                &&& step == Step::Pending(
                    Task::Mapping {
                        layout: new_layout,
                        page_size: self.target_page_size(new_layout.spec_size()),
                        source: Some(Source { segment, old_size }),
                    },
                )
            }),
    {
        lemma_alloc_size_is_least_multiple(
            new_layout.spec_size() as int,
            segment.spec_page_bytes() as int,
        );
    }

    /// A reallocation to some bytes of a segment whose page size is not the
    /// target for the new size asks for a new mapping with pages of the
    /// target, and takes the segment as the source of its contents. When
    /// that mapping stands at a free address, the bytes to copy are those
    /// that the user had and that the new size holds, and the old segment is
    /// released.
    pub proof fn lemma_realloc_across_page_sizes_moves(
        self,
        ptr: usize,
        old_layout: Layout,
        new_layout: Layout,
        moved_to: usize,
    )
        requires
            self.wf(),
            old_layout.wf(),
            new_layout.wf(),
            new_layout.spec_size() > 0,
            self.segments.contains_key(ptr),
            self.segments[ptr].spec_page_size() != self.target_page_size(new_layout.spec_size()),
            !self.segments.remove(ptr).contains_key(moved_to),
        ensures
            ({
                let target = self.target_page_size(new_layout.spec_size());
                let (rest, first) = self.realloc(ptr, old_layout, new_layout);
                let task = Task::Mapping {
                    layout: new_layout,
                    page_size: target,
                    source: Some(
                        Source { segment: self.segments[ptr], old_size: old_layout.spec_size() },
                    ),
                };
                let (next, step) = rest.resume(task, Ok(moved_to));
                &&& rest.segments == self.segments.remove(ptr)
                &&& first == Step::Pending(task)
                &&& step matches Step::Done(done)
                &&& done.result == Ok::<FatPtr, AllocError>(
                    next.segments[moved_to].spec_fat_ptr(),
                )
                &&& next.segments[moved_to].spec_page_size() == target
                &&& next.segments[moved_to].spec_layout() == new_layout
                &&& done.copy == if self.segments[ptr].spec_is_empty() || old_layout.spec_size()
                    == 0 {
                    None
                } else {
                    Some(
                        CopyRequest {
                            src: ptr,
                            dst: moved_to,
                            len: if old_layout.spec_size() < new_layout.spec_size() {
                                old_layout.spec_size()
                            } else {
                                new_layout.spec_size()
                            },
                        },
                    )
                }
                &&& done.retired == Some(self.segments[ptr])
                &&& done.displaced is None
                &&& moved_to != ptr ==> !next.segments.contains_key(ptr)
            }),
    {
    }

    /// Shrinking a segment on huge pages to some bytes below the threshold
    /// moves it to default pages: a mapping of default pages is asked for,
    /// and when it stands at a free address, the region that is handed out
    /// lies in a segment on default pages that covers the new size with
    /// whole default pages. The bytes to copy from the old address are those
    /// of the new size, the segment on huge pages is handed out to be
    /// unmapped, and its address is no longer tracked unless the system put
    /// the new mapping there. Nothing counts as missed.
    pub proof fn lemma_shrink_below_threshold_moves_to_default_pages(
        self,
        ptr: usize,
        old_layout: Layout,
        new_layout: Layout,
        moved_to: usize,
    )
        requires
            self.wf(),
            old_layout.wf(),
            new_layout.wf(),
            self.segments.contains_key(ptr),
            self.segments[ptr].spec_page_size() == PageSize::Size2m,
            !self.segments[ptr].spec_is_empty(),
            0 < new_layout.spec_size() <= old_layout.spec_size(),
            self.target_page_size(new_layout.spec_size()) == PageSize::SizeDefault,
            !self.segments.remove(ptr).contains_key(moved_to),
        ensures
            ({
                let (rest, first) = self.realloc(ptr, old_layout, new_layout);
                let task = first->Pending_0;
                let (next, step) = rest.resume(task, Ok(moved_to));
                let done = step->Done_0;
                &&& first is Pending
                &&& rest.fits(task)
                &&& rest.request(task) matches Request::Mmap(request)
                &&& request.flags == PageSize::SizeDefault.spec_map_flags()
                &&& request.length == spec_calc_alloc_size(
                    new_layout.spec_size() as int,
                    self.default_page.spec_bytes() as int,
                )
                &&& step is Done
                &&& done.result == Ok::<FatPtr, AllocError>(
                    FatPtr { addr: moved_to, len: request.length },
                )
                &&& request.length >= new_layout.spec_size()
                &&& request.length as int % (self.default_page.spec_bytes() as int) == 0
                &&& next.segments == self.segments.remove(ptr).insert(
                    moved_to,
                    next.segments[moved_to],
                )
                &&& next.segments[moved_to].spec_page_size() == PageSize::SizeDefault
                &&& next.segments[moved_to].spec_layout() == new_layout
                &&& done.copy == Some(
                    CopyRequest { src: ptr, dst: moved_to, len: new_layout.spec_size() },
                )
                &&& done.retired == Some(self.segments[ptr])
                &&& done.retired->Some_0.spec_unmap_request() == Some(
                    UnmapRequest { addr: ptr, length: self.segments[ptr].spec_alloc_size() },
                )
                &&& done.displaced is None
                &&& moved_to != ptr ==> !next.segments.contains_key(ptr)
                &&& next.stats == self.stats
            }),
    {
        lemma_alloc_size_is_least_multiple(
            new_layout.spec_size() as int,
            self.default_page.spec_bytes() as int,
        );
    }

    /// The counters only grow over a step of a task: no counter is smaller
    /// after it than before.
    pub proof fn lemma_resume_counters_grow(self, task: Task, outcome: Result<usize, MapError>)
        ensures
            self.resume(task, outcome).0.stats.not_below(self.stats),
    {
    }

    /// The counters only grow over the start of an allocation.
    pub proof fn lemma_allocate_counters_grow(self, layout: Layout)
        ensures
            self.allocate(layout).0.stats.not_below(self.stats),
    {
    }

    /// The counters only grow over the start of a reallocation.
    pub proof fn lemma_realloc_counters_grow(
        self,
        ptr: usize,
        old_layout: Layout,
        new_layout: Layout,
    )
        ensures
            self.realloc(ptr, old_layout, new_layout).0.stats.not_below(self.stats),
    {
    }

    /// A deallocation and the emptying of the table leave the counters as
    /// they are.
    pub proof fn lemma_dealloc_keeps_counters(self, ptr: usize)
        ensures
            self.dealloc(ptr).0.stats == self.stats,
            self.drain().stats == self.stats,
    {
    }

    /// Deallocation of an address that is not tracked is an error and
    /// changes nothing.
    pub proof fn lemma_dealloc_untracked_fails(self, ptr: usize)
        requires
            !self.segments.contains_key(ptr),
        ensures
            self.dealloc(ptr) == (self, Err::<MMap, AllocError>(AllocError)),
    {
    }

    /// An address can be deallocated once: after its deallocation, whether
    /// it went through or not, the address is not tracked, and deallocating
    /// it again is an error that changes nothing.
    pub proof fn lemma_dealloc_again_fails(self, ptr: usize)
        ensures
            !self.dealloc(ptr).0.segments.contains_key(ptr),
            self.dealloc(ptr).0.dealloc(ptr).1 == Err::<MMap, AllocError>(AllocError),
            self.dealloc(ptr).0.dealloc(ptr).0 == self.dealloc(ptr).0,
    {
    }

    /// The totals of the statistics add up: what is counted for all page
    /// sizes is what is counted on default pages plus what is counted on huge
    /// pages; no more is requested than is mapped, on either page size; what
    /// is mapped on default pages is whole pages of the default page size,
    /// and what is mapped on huge pages is whole huge pages; and the segments
    /// counted are the entries of the table.
    pub proof fn lemma_stats_add_up(self)
        requires
            self.wf(),
            self.stats() is Ok,
        ensures
            ({
                let stats = self.stats()->Ok_0;
                &&& stats.default_alloc + stats.huge_alloc == stats.alloc
                &&& stats.default_mapped + stats.huge_mapped == stats.mapped
                &&& stats.default_segments + stats.huge_segments == stats.segments
                &&& stats.alloc <= stats.mapped
                &&& stats.default_alloc <= stats.default_mapped
                &&& stats.huge_alloc <= stats.huge_mapped
                &&& stats.default_mapped as int % (self.default_page.spec_bytes() as int) == 0
                &&& stats.huge_mapped as int % (HUGE_PAGE_BYTES as int) == 0
                &&& stats.segments == self.segments.dom().len()
                &&& stats.alloc == total_requested(self.segments, None)
                &&& stats.mapped == total_mapped(self.segments, None)
            }),
    {
        lemma_totals_split_by_page_size(self.segments);
        lemma_requested_within_mapped(self.segments, None);
        lemma_requested_within_mapped(self.segments, Some(PageSize::SizeDefault));
        lemma_requested_within_mapped(self.segments, Some(PageSize::Size2m));
        lemma_mapped_is_whole_pages(
            self.segments,
            PageSize::SizeDefault,
            self.default_page.spec_bytes(),
        );
        lemma_mapped_is_whole_pages(self.segments, PageSize::Size2m, HUGE_PAGE_BYTES);
        lemma_total_segments_is_len(self.segments);
    }

    /// The efficiency is 100 where nothing is mapped, and else the
    /// percentage, rounded down, of the mapped bytes that were requested; it
    /// never exceeds 100.
    pub proof fn lemma_stats_efficiency(self)
        requires
            self.wf(),
            self.stats() is Ok,
        ensures
            ({
                let stats = self.stats()->Ok_0;
                &&& stats.mapped == 0 ==> stats.efficiency == 100
                &&& stats.mapped != 0 ==> stats.efficiency == (stats.alloc * 100) / (
                stats.mapped as int)
                &&& stats.efficiency <= 100
            }),
    {
        self.lemma_stats_add_up();
        let stats = self.stats()->Ok_0;
        if stats.mapped != 0 {
            assert((stats.alloc * 100) / (stats.mapped as int) <= 100) by (nonlinear_arith)
                requires
                    0 <= stats.alloc <= stats.mapped,
                    0 < stats.mapped,
            ;
        }
    }
}

} // verus!
