//! What holds of a tracker after any sequence of allocations, deallocations
//! and reallocations.

use vstd::prelude::*;

use crate::layout::Layout;
use crate::mmap::{lemma_alloc_size_is_least_multiple, MMap, MapError};
use crate::mmapper::{AllocError, Completion, Step, Task};
use crate::model::MMapperView;
use crate::page::PageSize;
use crate::stats::{
    lemma_sum_insert, lemma_sum_remove, mapped, one, requested, total_mapped, total_requested,
    total_segments,
};

verus! {

/// A call of the tracker, with what the operating system answered to it.
pub enum Call {
    /// An allocation for `layout`; the operating system answered `first` to
    /// the first request, and `fallback` to the second, if one was made.
    Allocate { layout: Layout, first: Result<usize, MapError>, fallback: Result<usize, MapError> },
    /// A deallocation of the address `ptr`.
    Deallocate { ptr: usize },
    /// A reallocation of the address `ptr` from `old_layout` to `new_layout`;
    /// the operating system answered `resize` to the request to resize the
    /// segment, `first` to the first request for a new mapping and
    /// `fallback` to the second, as far as they were made.
    Reallocate {
        ptr: usize,
        old_layout: Layout,
        new_layout: Layout,
        resize: Result<usize, MapError>,
        first: Result<usize, MapError>,
        fallback: Result<usize, MapError>,
    },
}

impl Call {
    /// The layouts of a call are well formed.
    pub open spec fn wf(self) -> bool {
        match self {
            Call::Allocate { layout, .. } => layout.wf(),
            Call::Deallocate { .. } => true,
            Call::Reallocate { old_layout, new_layout, .. } => old_layout.wf() && new_layout.wf(),
        }
    }
}

/// The state and the end of a task when the operating system answers `first`
/// to its request for a mapping and `fallback` to the second, if one is made.
pub open spec fn mapping(
    state: MMapperView,
    task: Task,
    first: Result<usize, MapError>,
    fallback: Result<usize, MapError>,
) -> (MMapperView, Completion) {
    let (tried, step) = state.resume(task, first);
    match step {
        Step::Done(done) => (tried, done),
        Step::Pending(again) => {
            let (retried, last) = tried.resume(again, fallback);
            match last {
                Step::Done(done) => (retried, done),
                Step::Pending(_) => (retried, MMapperView::failed(None)),
            }
        },
    }
}

/// A whole allocation: the state and the end of the allocation for `layout`
/// when the operating system answers `first` to the first request and
/// `fallback` to the second, if one is made.
pub open spec fn allocation(
    state: MMapperView,
    layout: Layout,
    first: Result<usize, MapError>,
    fallback: Result<usize, MapError>,
) -> (MMapperView, Completion) {
    let (begun, step) = state.allocate(layout);
    match step {
        Step::Done(done) => (begun, done),
        Step::Pending(task) => mapping(begun, task, first, fallback),
    }
}

/// A whole reallocation: the state and the end of the reallocation of `ptr`
/// when the operating system answers `resize` to the request to resize the
/// segment, `first` to the first request for a new mapping and `fallback` to
/// the second, as far as they are made.
pub open spec fn reallocation(
    state: MMapperView,
    ptr: usize,
    old_layout: Layout,
    new_layout: Layout,
    resize: Result<usize, MapError>,
    first: Result<usize, MapError>,
    fallback: Result<usize, MapError>,
) -> (MMapperView, Completion) {
    let (rest, step) = state.realloc(ptr, old_layout, new_layout);
    match step {
        Step::Done(done) => (rest, done),
        Step::Pending(Task::Mapping { layout, page_size, source }) => mapping(
            rest,
            Task::Mapping { layout, page_size, source },
            first,
            fallback,
        ),
        Step::Pending(Task::Remapping { segment, old_size, new_layout }) => {
            let (resized, next) = rest.resume(
                Task::Remapping { segment, old_size, new_layout },
                resize,
            );
            match next {
                Step::Done(done) => (resized, done),
                Step::Pending(task) => mapping(resized, task, first, fallback),
            }
        },
    }
}

/// The state of a tracker that started in `state`, after `calls`.
pub open spec fn after(state: MMapperView, calls: Seq<Call>) -> MMapperView
    decreases calls.len(),
{
    if calls.len() == 0 {
        state
    } else {
        let before = after(state, calls.drop_last());
        match calls.last() {
            Call::Allocate { layout, first, fallback } => allocation(
                before,
                layout,
                first,
                fallback,
            ).0,
            Call::Deallocate { ptr } => before.dealloc(ptr).0,
            Call::Reallocate { ptr, old_layout, new_layout, resize, first, fallback } =>
                reallocation(before, ptr, old_layout, new_layout, resize, first, fallback).0,
        }
    }
}

/// The addresses that are live after `calls` on a tracker that started in
/// `state`: those that were live at the start or that an allocation or a
/// reallocation handed out, and that no deallocation or reallocation has
/// taken back since. A reallocation takes its address back whether it
/// succeeds or not.
pub open spec fn live(state: MMapperView, calls: Seq<Call>) -> Set<usize>
    decreases calls.len(),
{
    if calls.len() == 0 {
        state.segments.dom()
    } else {
        let before = after(state, calls.drop_last());
        let held = live(state, calls.drop_last());
        match calls.last() {
            Call::Allocate { layout, first, fallback } => match allocation(
                before,
                layout,
                first,
                fallback,
            ).1.result {
                Ok(region) => held.insert(region.addr),
                Err(_) => held,
            },
            Call::Deallocate { ptr } => match before.dealloc(ptr).1 {
                Ok(_) => held.remove(ptr),
                Err(_) => held,
            },
            Call::Reallocate { ptr, old_layout, new_layout, resize, first, fallback } =>
                match reallocation(
                    before,
                    ptr,
                    old_layout,
                    new_layout,
                    resize,
                    first,
                    fallback,
                ).1.result {
                    Ok(region) => held.remove(ptr).insert(region.addr),
                    Err(_) => held.remove(ptr),
                },
        }
    }
}

/// An allocation for some bytes succeeds exactly when a mapping was made at
/// an address at which no segment stands: by the first request, or, where
/// huge pages were asked for and refused, by the second. A mapping at an
/// address that is taken ends the allocation with an error. An allocation
/// for no bytes asks for nothing, and succeeds exactly when no empty segment
/// stands already. An allocation ends after two requests at most, copies
/// nothing and retires no segment.
pub proof fn lemma_allocation_succeeds_when_mapped(
    state: MMapperView,
    layout: Layout,
    first: Result<usize, MapError>,
    fallback: Result<usize, MapError>,
)
    requires
        state.wf(),
        layout.wf(),
    ensures
        layout.spec_size() > 0 ==> (allocation(state, layout, first, fallback).1.result is Ok
            <==> match first {
            Ok(ptr) => !state.segments.contains_key(ptr),
            Err(_) => state.target_page_size(layout.spec_size()) == PageSize::Size2m && (
            fallback matches Ok(ptr) && !state.segments.contains_key(ptr)),
        }),
        layout.spec_size() == 0 ==> (allocation(state, layout, first, fallback).1.result is Ok
            <==> !state.segments.contains_key(0)),
        layout.spec_size() == 0 ==> allocation(state, layout, first, fallback)
            == allocation(state, layout, fallback, first),
        allocation(state, layout, first, fallback).1.copy is None,
        allocation(state, layout, first, fallback).1.retired is None,
        state.allocate(layout).1 matches Step::Pending(task) ==> (state.resume(
            task,
            first,
        ).1 matches Step::Pending(again) ==> state.resume(task, first).0.resume(
            again,
            fallback,
        ).1 is Done),
{
    state.lemma_allocate_keeps_wf(layout);
    if layout.spec_size() == 0 {
        state.lemma_allocate_nothing_asks_nothing(layout);
    }
}

/// An allocation that succeeds hands out an address at which no segment
/// stood, and adds one segment to the table; one that fails leaves the
/// addresses of the table as they were.
pub proof fn lemma_allocation_adds_one_address(
    state: MMapperView,
    layout: Layout,
    first: Result<usize, MapError>,
    fallback: Result<usize, MapError>,
)
    requires
        state.wf(),
        layout.wf(),
    ensures
        allocation(state, layout, first, fallback).0.wf(),
        match allocation(state, layout, first, fallback).1.result {
            Ok(region) => {
                &&& !state.segments.contains_key(region.addr)
                &&& allocation(state, layout, first, fallback).0.segments.dom()
                    == state.segments.dom().insert(region.addr)
                &&& region.len >= layout.spec_size()
            },
            Err(_) => allocation(state, layout, first, fallback).0.segments.dom()
                == state.segments.dom(),
        },
{
    state.lemma_allocate_keeps_wf(layout);
    let (begun, step) = state.allocate(layout);
    match step {
        Step::Done(done) => {
            state.lemma_allocate_nothing_asks_nothing(layout);
            assert(begun.segments.dom() =~= if done.result is Ok {
                state.segments.dom().insert(0)
            } else {
                state.segments.dom()
            });
        },
        Step::Pending(task) => {
            lemma_mapping_adds_one_address(state, task, first, fallback);
        },
    }
}

/// A task that asks for a mapping ends after two requests at most. Where it
/// succeeds, it hands out an address at which no segment stood and adds one
/// segment to the table; where it fails, the addresses of the table stay as
/// they were.
pub proof fn lemma_mapping_adds_one_address(
    state: MMapperView,
    task: Task,
    first: Result<usize, MapError>,
    fallback: Result<usize, MapError>,
)
    requires
        state.wf(),
        state.fits(task),
        task is Mapping,
    ensures
        ({
            let (next, done) = mapping(state, task, first, fallback);
            &&& next.wf()
            &&& done.result matches Ok(region) ==> {
                &&& !state.segments.contains_key(region.addr)
                &&& next.segments.dom() == state.segments.dom().insert(region.addr)
                &&& region.len >= task->Mapping_layout.spec_size()
            }
            &&& done.result is Err ==> next.segments.dom() == state.segments.dom()
        }),
{
    let layout = task->Mapping_layout;
    let page_size = task->Mapping_page_size;
    let source = task->Mapping_source;
    state.lemma_resume_keeps_wf(task, first);
    let (tried, step) = state.resume(task, first);
    match step {
        Step::Done(done) => {
            if done.result is Ok {
                state.lemma_allocated_region_holds_request(layout, page_size, source, first);
            }
            assert(tried.segments.dom() =~= if done.result is Ok {
                state.segments.dom().insert(done.result->Ok_0.addr)
            } else {
                state.segments.dom()
            });
        },
        Step::Pending(next) => {
            tried.lemma_resume_keeps_wf(next, fallback);
            let (retried, last) = tried.resume(next, fallback);
            let done = last->Done_0;
            if done.result is Ok {
                tried.lemma_allocated_region_holds_request(
                    layout,
                    PageSize::SizeDefault,
                    source,
                    fallback,
                );
            }
            assert(retried.segments.dom() =~= if done.result is Ok {
                state.segments.dom().insert(done.result->Ok_0.addr)
            } else {
                state.segments.dom()
            });
        },
    }
}

/// A reallocation takes its address out of the table, and, where it
/// succeeds, puts the address of the region that it hands out in: the same
/// address where the segment stayed, else one at which no other segment
/// stood.
pub proof fn lemma_reallocation_moves_one_address(
    state: MMapperView,
    ptr: usize,
    old_layout: Layout,
    new_layout: Layout,
    resize: Result<usize, MapError>,
    first: Result<usize, MapError>,
    fallback: Result<usize, MapError>,
)
    requires
        state.wf(),
        old_layout.wf(),
        new_layout.wf(),
    ensures
        ({
            let (next, done) = reallocation(
                state,
                ptr,
                old_layout,
                new_layout,
                resize,
                first,
                fallback,
            );
            &&& next.wf()
            &&& !state.segments.contains_key(ptr) ==> next == state && done == MMapperView::failed(
                None,
            )
            &&& done.result matches Ok(region) ==> {
                &&& state.segments.contains_key(ptr)
                &&& !state.segments.remove(ptr).contains_key(region.addr)
                &&& next.segments.dom() == state.segments.dom().remove(ptr).insert(region.addr)
                &&& region.len >= new_layout.spec_size()
            }
            &&& done.result is Err ==> next.segments.dom() == state.segments.dom().remove(ptr)
        }),
{
    state.lemma_realloc_keeps_wf(ptr, old_layout, new_layout);
    let (rest, step) = state.realloc(ptr, old_layout, new_layout);
    if !state.segments.contains_key(ptr) {
        assert(state.segments.dom().remove(ptr) =~= state.segments.dom());
    } else {
        match step {
            Step::Done(done) => {
                lemma_alloc_size_is_least_multiple(
                    new_layout.spec_size() as int,
                    state.segments[ptr].spec_page_bytes() as int,
                );
                lemma_alloc_size_is_least_multiple(
                    new_layout.spec_size() as int,
                    state.target_page_size(new_layout.spec_size()).spec_bytes(
                        &state.default_page,
                    ) as int,
                );
                if done.result is Ok {
                    assert(rest.segments.dom() =~= state.segments.dom().remove(ptr).insert(
                        done.result->Ok_0.addr,
                    ));
                } else {
                    assert(rest.segments.dom() =~= state.segments.dom().remove(ptr));
                }
            },
            Step::Pending(Task::Mapping { layout, page_size, source }) => {
                assert(rest.segments.dom() =~= state.segments.dom().remove(ptr));
                lemma_mapping_adds_one_address(
                    rest,
                    Task::Mapping { layout, page_size, source },
                    first,
                    fallback,
                );
            },
            Step::Pending(Task::Remapping { segment, old_size, new_layout }) => {
                assert(rest.segments.dom() =~= state.segments.dom().remove(ptr));
                let task = Task::Remapping { segment, old_size, new_layout };
                rest.lemma_resume_keeps_wf(task, resize);
                let (resized, next) = rest.resume(task, resize);
                match next {
                    Step::Done(done) => {
                        lemma_alloc_size_is_least_multiple(
                            new_layout.spec_size() as int,
                            segment.spec_page_bytes() as int,
                        );
                        let moved = segment.spec_remapped(new_layout, resize);
                        assert(resized.segments.dom() =~= rest.segments.dom().insert(
                            moved.spec_as_ptr(),
                        ));
                    },
                    Step::Pending(Task::Mapping { layout, page_size, source }) => {
                        lemma_mapping_adds_one_address(
                            resized,
                            Task::Mapping { layout, page_size, source },
                            first,
                            fallback,
                        );
                    },
                    Step::Pending(Task::Remapping { .. }) => {},
                }
            },
        }
    }
}

/// An allocation that succeeds adds one segment to the totals of the page
/// size that its mapping was made with, with the requested size and with the
/// length of the region that it hands out; the totals of the other page size
/// stay as they were.
pub proof fn lemma_allocation_adds_to_totals(
    state: MMapperView,
    layout: Layout,
    page_size: PageSize,
    outcome: Result<usize, MapError>,
)
    requires
        state.wf(),
        state.fits(Task::Mapping { layout, page_size, source: None }),
        state.resume(Task::Mapping { layout, page_size, source: None }, outcome).1 matches Step::Done(
            done,
        ) && done.result is Ok,
    ensures
        ({
            let (next, step) = state.resume(
                Task::Mapping { layout, page_size, source: None },
                outcome,
            );
            let region = step->Done_0.result->Ok_0;
            let other = if page_size == PageSize::Size2m {
                PageSize::SizeDefault
            } else {
                PageSize::Size2m
            };
            &&& total_requested(next.segments, None) == total_requested(state.segments, None)
                + layout.spec_size()
            &&& total_mapped(next.segments, None) == total_mapped(state.segments, None)
                + region.len
            &&& total_segments(next.segments, None) == total_segments(state.segments, None) + 1
            &&& total_requested(next.segments, Some(page_size)) == total_requested(
                state.segments,
                Some(page_size),
            ) + layout.spec_size()
            &&& total_mapped(next.segments, Some(page_size)) == total_mapped(
                state.segments,
                Some(page_size),
            ) + region.len
            &&& total_segments(next.segments, Some(page_size)) == total_segments(
                state.segments,
                Some(page_size),
            ) + 1
            &&& total_requested(next.segments, Some(other)) == total_requested(
                state.segments,
                Some(other),
            )
            &&& total_mapped(next.segments, Some(other)) == total_mapped(
                state.segments,
                Some(other),
            )
            &&& total_segments(next.segments, Some(other)) == total_segments(
                state.segments,
                Some(other),
            )
        }),
{
    state.lemma_allocated_region_holds_request(layout, page_size, None, outcome);
    let ptr = outcome->Ok_0;
    let mmap = MMap::spec_mapped(layout, page_size, state.default_page, ptr);
    let other = if page_size == PageSize::Size2m {
        PageSize::SizeDefault
    } else {
        PageSize::Size2m
    };
    lemma_sum_insert(state.segments, requested(None), ptr, mmap);
    lemma_sum_insert(state.segments, mapped(None), ptr, mmap);
    lemma_sum_insert(state.segments, one(None), ptr, mmap);
    lemma_sum_insert(state.segments, requested(Some(page_size)), ptr, mmap);
    lemma_sum_insert(state.segments, mapped(Some(page_size)), ptr, mmap);
    lemma_sum_insert(state.segments, one(Some(page_size)), ptr, mmap);
    lemma_sum_insert(state.segments, requested(Some(other)), ptr, mmap);
    lemma_sum_insert(state.segments, mapped(Some(other)), ptr, mmap);
    lemma_sum_insert(state.segments, one(Some(other)), ptr, mmap);
}

/// A deallocation that succeeds takes the segment's requested size and its
/// mapped size out of the totals, and one segment.
pub proof fn lemma_dealloc_takes_from_totals(state: MMapperView, ptr: usize)
    requires
        state.wf(),
        state.segments.contains_key(ptr),
    ensures
        ({
            let (next, removed) = state.dealloc(ptr);
            &&& removed == Ok::<MMap, AllocError>(state.segments[ptr])
            &&& next.wf()
            &&& total_requested(state.segments, None) == total_requested(next.segments, None)
                + state.segments[ptr].spec_size()
            &&& total_mapped(state.segments, None) == total_mapped(next.segments, None)
                + state.segments[ptr].spec_alloc_size()
            &&& total_segments(state.segments, None) == total_segments(next.segments, None) + 1
        }),
{
    lemma_sum_remove(state.segments, requested(None), ptr);
    lemma_sum_remove(state.segments, mapped(None), ptr);
    lemma_sum_remove(state.segments, one(None), ptr);
}

/// Over any sequence of allocations, deallocations and reallocations the
/// counters only grow: the missed allocations, the missed megabytes and the
/// failed resizes are never smaller after the calls than before them.
pub proof fn lemma_counters_only_grow(state: MMapperView, calls: Seq<Call>)
    ensures
        after(state, calls).stats.not_below(state.stats),
        after(state, calls).stats.missed_allocs >= state.stats.missed_allocs,
        after(state, calls).stats.missed_mb >= state.stats.missed_mb,
        after(state, calls).stats.remaps_failed >= state.stats.remaps_failed,
    decreases calls.len(),
{
    if calls.len() > 0 {
        lemma_counters_only_grow(state, calls.drop_last());
        let before = after(state, calls.drop_last());
        match calls.last() {
            Call::Allocate { layout, first, fallback } => {
                lemma_allocation_counters_grow(before, layout, first, fallback);
            },
            Call::Deallocate { ptr } => {
                before.lemma_dealloc_keeps_counters(ptr);
            },
            Call::Reallocate { ptr, old_layout, new_layout, resize, first, fallback } => {
                lemma_reallocation_counters_grow(
                    before,
                    ptr,
                    old_layout,
                    new_layout,
                    resize,
                    first,
                    fallback,
                );
            },
        }
    }
}

/// Over the requests of a task that asks for a mapping the counters only
/// grow.
pub proof fn lemma_mapping_counters_grow(
    state: MMapperView,
    task: Task,
    first: Result<usize, MapError>,
    fallback: Result<usize, MapError>,
)
    ensures
        mapping(state, task, first, fallback).0.stats.not_below(state.stats),
{
    state.lemma_resume_counters_grow(task, first);
    let (tried, step) = state.resume(task, first);
    if step is Pending {
        tried.lemma_resume_counters_grow(step->Pending_0, fallback);
    }
}

/// Over a whole allocation the counters only grow.
pub proof fn lemma_allocation_counters_grow(
    state: MMapperView,
    layout: Layout,
    first: Result<usize, MapError>,
    fallback: Result<usize, MapError>,
)
    ensures
        allocation(state, layout, first, fallback).0.stats.not_below(state.stats),
{
    state.lemma_allocate_counters_grow(layout);
    let (begun, step) = state.allocate(layout);
    if step is Pending {
        lemma_mapping_counters_grow(begun, step->Pending_0, first, fallback);
    }
}

/// Over a whole reallocation the counters only grow.
pub proof fn lemma_reallocation_counters_grow(
    state: MMapperView,
    ptr: usize,
    old_layout: Layout,
    new_layout: Layout,
    resize: Result<usize, MapError>,
    first: Result<usize, MapError>,
    fallback: Result<usize, MapError>,
)
    ensures
        reallocation(
            state,
            ptr,
            old_layout,
            new_layout,
            resize,
            first,
            fallback,
        ).0.stats.not_below(state.stats),
{
    state.lemma_realloc_counters_grow(ptr, old_layout, new_layout);
    let (rest, step) = state.realloc(ptr, old_layout, new_layout);
    match step {
        Step::Done(done) => {},
        Step::Pending(Task::Mapping { layout, page_size, source }) => {
            lemma_mapping_counters_grow(
                rest,
                Task::Mapping { layout, page_size, source },
                first,
                fallback,
            );
        },
        Step::Pending(Task::Remapping { segment, old_size, new_layout }) => {
            let task = Task::Remapping { segment, old_size, new_layout };
            rest.lemma_resume_counters_grow(task, resize);
            let (resized, next) = rest.resume(task, resize);
            if next is Pending {
                lemma_mapping_counters_grow(resized, next->Pending_0, first, fallback);
            }
        },
    }
}

/// After any sequence of allocations, deallocations and reallocations the
/// table holds exactly the live addresses, each once: as many segments as
/// there are live addresses.
pub proof fn lemma_table_holds_live_addresses(state: MMapperView, calls: Seq<Call>)
    requires
        state.wf(),
        forall|i: int| 0 <= i < calls.len() ==> (#[trigger] calls[i]).wf(),
    ensures
        after(state, calls).wf(),
        after(state, calls).segments.dom() == live(state, calls),
        after(state, calls).segments.dom().len() == live(state, calls).len(),
    decreases calls.len(),
{
    if calls.len() > 0 {
        let earlier = calls.drop_last();
        lemma_table_holds_live_addresses(state, earlier);
        let before = after(state, earlier);
        match calls.last() {
            Call::Allocate { layout, first, fallback } => {
                assert(calls[calls.len() - 1].wf());
                lemma_allocation_adds_one_address(before, layout, first, fallback);
            },
            Call::Deallocate { ptr } => {
                assert(before.dealloc(ptr).0.segments.dom() =~= if before.segments.contains_key(
                    ptr,
                ) {
                    before.segments.dom().remove(ptr)
                } else {
                    before.segments.dom()
                });
            },
            Call::Reallocate { ptr, old_layout, new_layout, resize, first, fallback } => {
                assert(calls[calls.len() - 1].wf());
                lemma_reallocation_moves_one_address(
                    before,
                    ptr,
                    old_layout,
                    new_layout,
                    resize,
                    first,
                    fallback,
                );
            },
        }
    }
}

} // verus!
