//! Totals over the tracked segments.

use vstd::arithmetic::div_mod::{lemma_add_mod_noop, lemma_small_mod};
use vstd::prelude::*;

use crate::mmap::{lemma_alloc_size_is_least_multiple, MMap};
use crate::page::PageSize;

verus! {

/// The sum of `measure` over the segments of a finite table.
pub open spec fn sum_segments(segments: Map<usize, MMap>, measure: spec_fn(MMap) -> nat) -> nat
    decreases segments.dom().len(),
    when segments.dom().finite()
{
    if segments.dom().len() == 0 {
        0
    } else {
        let ptr = segments.dom().choose();
        measure(segments[ptr]) + sum_segments(segments.remove(ptr), measure)
    }
}

/// Whether a segment counts towards the totals of `page_size`; every segment
/// counts towards the totals of all page sizes, which `None` stands for.
pub open spec fn counts(mmap: MMap, page_size: Option<PageSize>) -> bool {
    page_size matches Some(p) ==> mmap.spec_page_size() == p
}

/// The requested size of a segment that counts, and nothing for another.
pub open spec fn requested(page_size: Option<PageSize>) -> spec_fn(MMap) -> nat {
    |mmap: MMap|
        if counts(mmap, page_size) {
            mmap.spec_size() as nat
        } else {
            0
        }
}

/// The mapped size of a segment that counts, and nothing for another.
pub open spec fn mapped(page_size: Option<PageSize>) -> spec_fn(MMap) -> nat {
    |mmap: MMap|
        if counts(mmap, page_size) {
            mmap.spec_alloc_size() as nat
        } else {
            0
        }
}

/// One for a segment that counts, and nothing for another.
pub open spec fn one(page_size: Option<PageSize>) -> spec_fn(MMap) -> nat {
    |mmap: MMap|
        if counts(mmap, page_size) {
            1nat
        } else {
            0
        }
}

/// The bytes requested of the segments on pages of `page_size`.
pub open spec fn total_requested(segments: Map<usize, MMap>, page_size: Option<PageSize>) -> nat {
    sum_segments(segments, requested(page_size))
}

/// The bytes mapped for the segments on pages of `page_size`.
pub open spec fn total_mapped(segments: Map<usize, MMap>, page_size: Option<PageSize>) -> nat {
    sum_segments(segments, mapped(page_size))
}

/// The number of segments on pages of `page_size`.
pub open spec fn total_segments(segments: Map<usize, MMap>, page_size: Option<PageSize>) -> nat {
    sum_segments(segments, one(page_size))
}

/// A sum does not depend on which segment is counted first: any segment of
/// the table can be taken out of it.
pub proof fn lemma_sum_remove(
    segments: Map<usize, MMap>,
    measure: spec_fn(MMap) -> nat,
    ptr: usize,
)
    requires
        segments.dom().finite(),
        segments.contains_key(ptr),
    ensures
        sum_segments(segments, measure) == measure(segments[ptr]) + sum_segments(
            segments.remove(ptr),
            measure,
        ),
    decreases segments.dom().len(),
{
    let first = segments.dom().choose();
    if first != ptr {
        lemma_sum_remove(segments.remove(first), measure, ptr);
        lemma_sum_remove(segments.remove(ptr), measure, first);
        assert(segments.remove(first).remove(ptr) =~= segments.remove(ptr).remove(first));
    }
}

/// A segment that enters a table at a free address adds its measure to the
/// sum.
pub proof fn lemma_sum_insert(
    segments: Map<usize, MMap>,
    measure: spec_fn(MMap) -> nat,
    ptr: usize,
    mmap: MMap,
)
    requires
        segments.dom().finite(),
        !segments.contains_key(ptr),
    ensures
        sum_segments(segments.insert(ptr, mmap), measure) == sum_segments(segments, measure)
            + measure(mmap),
{
    lemma_sum_remove(segments.insert(ptr, mmap), measure, ptr);
    assert(segments.insert(ptr, mmap).remove(ptr) =~= segments);
}

/// Where one measure is the sum of two others on every segment of the table,
/// so are their sums.
pub proof fn lemma_sum_split(
    segments: Map<usize, MMap>,
    whole: spec_fn(MMap) -> nat,
    left: spec_fn(MMap) -> nat,
    right: spec_fn(MMap) -> nat,
)
    requires
        segments.dom().finite(),
        forall|ptr: usize| #[trigger]
            segments.contains_key(ptr) ==> whole(segments[ptr]) == left(segments[ptr]) + right(
                segments[ptr],
            ),
    ensures
        sum_segments(segments, whole) == sum_segments(segments, left) + sum_segments(
            segments,
            right,
        ),
    decreases segments.dom().len(),
{
    if segments.dom().len() != 0 {
        let ptr = segments.dom().choose();
        lemma_sum_split(segments.remove(ptr), whole, left, right);
    }
}

/// Where one measure is at most another on every segment of the table, so
/// are their sums.
pub proof fn lemma_sum_ordered(
    segments: Map<usize, MMap>,
    small: spec_fn(MMap) -> nat,
    large: spec_fn(MMap) -> nat,
)
    requires
        segments.dom().finite(),
        forall|ptr: usize| #[trigger]
            segments.contains_key(ptr) ==> small(segments[ptr]) <= large(segments[ptr]),
    ensures
        sum_segments(segments, small) <= sum_segments(segments, large),
    decreases segments.dom().len(),
{
    if segments.dom().len() != 0 {
        let ptr = segments.dom().choose();
        lemma_sum_ordered(segments.remove(ptr), small, large);
    }
}

/// The segments of all page sizes are as many as the table has entries.
pub proof fn lemma_total_segments_is_len(segments: Map<usize, MMap>)
    requires
        segments.dom().finite(),
    ensures
        total_segments(segments, None) == segments.dom().len(),
    decreases segments.dom().len(),
{
    if segments.dom().len() != 0 {
        let ptr = segments.dom().choose();
        lemma_total_segments_is_len(segments.remove(ptr));
    }
}

/// Each total over all page sizes is the total on default pages plus the
/// total on huge pages.
pub proof fn lemma_totals_split_by_page_size(segments: Map<usize, MMap>)
    requires
        segments.dom().finite(),
    ensures
        total_requested(segments, None) == total_requested(
            segments,
            Some(PageSize::SizeDefault),
        ) + total_requested(segments, Some(PageSize::Size2m)),
        total_mapped(segments, None) == total_mapped(segments, Some(PageSize::SizeDefault))
            + total_mapped(segments, Some(PageSize::Size2m)),
        total_segments(segments, None) == total_segments(segments, Some(PageSize::SizeDefault))
            + total_segments(segments, Some(PageSize::Size2m)),
{
    let default = Some(PageSize::SizeDefault);
    let huge = Some(PageSize::Size2m);
    lemma_sum_split(segments, requested(None), requested(default), requested(huge));
    lemma_sum_split(segments, mapped(None), mapped(default), mapped(huge));
    lemma_sum_split(segments, one(None), one(default), one(huge));
}

/// Where a measure is a multiple of `unit` on every segment of the table, so
/// is its sum.
pub proof fn lemma_sum_multiple(
    segments: Map<usize, MMap>,
    measure: spec_fn(MMap) -> nat,
    unit: int,
)
    requires
        segments.dom().finite(),
        unit > 0,
        forall|ptr: usize| #[trigger]
            segments.contains_key(ptr) ==> measure(segments[ptr]) as int % unit == 0,
    ensures
        sum_segments(segments, measure) as int % unit == 0,
    decreases segments.dom().len(),
{
    if segments.dom().len() != 0 {
        let ptr = segments.dom().choose();
        lemma_sum_multiple(segments.remove(ptr), measure, unit);
        let first = measure(segments[ptr]) as int;
        let others = sum_segments(segments.remove(ptr), measure) as int;
        lemma_add_mod_noop(first, others, unit);
        lemma_small_mod(0, unit as nat);
    } else {
        lemma_small_mod(0, unit as nat);
    }
}

/// The bytes mapped on pages of a page size are whole pages of that size,
/// where every segment of the table on those pages has pages of `page_bytes`
/// bytes.
pub proof fn lemma_mapped_is_whole_pages(
    segments: Map<usize, MMap>,
    page_size: PageSize,
    page_bytes: usize,
)
    requires
        segments.dom().finite(),
        page_bytes > 0,
        forall|ptr: usize| #[trigger]
            segments.contains_key(ptr) ==> segments[ptr].wf() && (segments[ptr].spec_page_size()
                == page_size ==> segments[ptr].spec_page_bytes() == page_bytes),
    ensures
        total_mapped(segments, Some(page_size)) as int % (page_bytes as int) == 0,
{
    assert forall|ptr: usize| #[trigger] segments.contains_key(ptr) implies mapped(
        Some(page_size),
    )(segments[ptr]) as int % (page_bytes as int) == 0 by {
        lemma_alloc_size_is_least_multiple(
            segments[ptr].spec_size() as int,
            segments[ptr].spec_page_bytes() as int,
        );
        lemma_small_mod(0, page_bytes as nat);
    }
    lemma_sum_multiple(segments, mapped(Some(page_size)), page_bytes as int);
}

/// No more bytes are requested of the segments of a table than are mapped
/// for them.
pub proof fn lemma_requested_within_mapped(
    segments: Map<usize, MMap>,
    page_size: Option<PageSize>,
)
    requires
        segments.dom().finite(),
        forall|ptr: usize| #[trigger] segments.contains_key(ptr) ==> segments[ptr].wf(),
    ensures
        total_requested(segments, page_size) <= total_mapped(segments, page_size),
{
    assert forall|ptr: usize| #[trigger] segments.contains_key(ptr) implies requested(page_size)(
        segments[ptr],
    ) <= mapped(page_size)(segments[ptr]) by {
        lemma_alloc_size_is_least_multiple(
            segments[ptr].spec_size() as int,
            segments[ptr].spec_page_bytes() as int,
        );
    }
    lemma_sum_ordered(segments, requested(page_size), mapped(page_size));
}

} // verus!
